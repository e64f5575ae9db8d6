use adexplorersnapshot::security_descriptor::access_mask::AccessMask;
use adexplorersnapshot::security_descriptor::control_flags::{ControlFlag, ControlFlags};

#[test]
fn test_access_mask() {
    let mut mask = AccessMask::new(0);
    mask.set_flag(AccessMask::GENERIC_READ);
    assert!(mask.has_flag(AccessMask::GENERIC_READ));
    assert!(!mask.has_flag(AccessMask::GENERIC_WRITE));
    mask.set_flag(AccessMask::WRITE_DACL);
    assert!(mask.has_flag(AccessMask::WRITE_DACL));
    assert!(!mask.has_flag(AccessMask::WRITE_OWNER));
    mask.clear_flag(AccessMask::GENERIC_READ);
    assert!(!mask.has_flag(AccessMask::GENERIC_READ));
    let object_rights = 0x1234;
    mask = AccessMask::new(object_rights);
    let mask_u32: u32 = mask.into();
    assert_eq!(mask_u32, object_rights);
}

#[test]
fn access_mask_rights_lists() {
    let mask = AccessMask::new(AccessMask::GENERIC_ALL | AccessMask::WRITE_OWNER | 0x20);
    assert_eq!(
        mask.get_rights_generic(),
        vec![AccessMask::GENERIC_ALL, AccessMask::WRITE_OWNER]
    );
    assert_eq!(
        mask.get_rights_ad(),
        vec![0x20, AccessMask::GENERIC_ALL, AccessMask::WRITE_OWNER]
    );
}

#[test]
fn access_mask_iterator_walks_set_rights() {
    let mut it = AccessMask::new(AccessMask::GENERIC_READ | AccessMask::DELETE).into_iter();
    assert_eq!(it.next(), Some(AccessMask::GENERIC_READ));
    assert_eq!(it.next(), Some(AccessMask::DELETE));
    assert_eq!(it.next(), None);
}

#[test]
fn control_flags_set() {
    let flags = ControlFlags::new(0x8004);
    assert!(flags.is_set(ControlFlag::SR));
    assert!(flags.is_set(ControlFlag::DP));
    assert!(!flags.is_set(ControlFlag::PD));
    assert_eq!(flags.get_flags(), vec![ControlFlag::SR, ControlFlag::DP]);
    assert_eq!(flags.as_u16(), 0x8004);
}
