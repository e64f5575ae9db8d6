use adexplorersnapshot::guid::GUID;
use adexplorersnapshot::parser::object::ObjectType;
use adexplorersnapshot::rights::rights;
use adexplorersnapshot::security_descriptor::access_mask::AccessMask;
use adexplorersnapshot::security_descriptor::ace::{
    ACEFlags, ACEHeader, ACEType, AccessAllowedAce, AccessAllowedObjectAce, AccessDeniedAce, ACE,
};
use adexplorersnapshot::sid::SID;

fn principal() -> SID {
    SID { revision: 1, identifier_authority: 5, sub_authorities: vec![32, 544] }
}

fn guid(d1: u32, d2: u16, d3: u16, d4: u64) -> GUID {
    GUID { data1: d1, data2: d2, data3: d3, data4: d4 }
}

fn zero_guid() -> GUID {
    guid(0, 0, 0, 0)
}

fn object_ace(mask: u32, object_type: Option<GUID>) -> ACE {
    ACE::AccessAllowedObject(AccessAllowedObjectAce {
        header: ACEHeader {
            ace_type: ACEType::AccessAllowedObject,
            ace_flags: ACEFlags::new(0),
            ace_size: 0,
        },
        mask: AccessMask::new(mask),
        flags: if object_type.is_some() { 1 } else { 0 },
        object_type,
        inherited_object_type: None,
        sid: principal(),
    })
}

fn plain_ace(mask: u32) -> ACE {
    ACE::AccessAllowed(AccessAllowedAce {
        header: ACEHeader { ace_type: ACEType::AccessAllowed, ace_flags: ACEFlags::new(0), ace_size: 0 },
        mask: AccessMask::new(mask),
        sid: principal(),
    })
}

#[test]
fn generic_all_short_circuits() {
    let ace = object_ace(0x10000000 | AccessMask::WRITE_DACL, Some(zero_guid()));
    assert_eq!(rights(&ace, &ObjectType::Group, false), vec!["GenericAll".to_string()]);
    let ace = object_ace(0x10000000, Some(zero_guid()));
    assert_eq!(rights(&ace, &ObjectType::Group, false), vec!["GenericAll".to_string()]);
}

#[test]
fn get_changes_on_domain() {
    let ace = object_ace(0x100, Some(guid(0x1131f6aa, 0x9c07, 0x11d1, 0xf79f00c04fc2dcd2)));
    assert_eq!(rights(&ace, &ObjectType::Domain, false), vec!["GetChanges".to_string()]);
}

#[test]
fn get_changes_all_and_filtered_set_on_domain() {
    let all = object_ace(0x100, Some(guid(0x1131f6ad, 0x9c07, 0x11d1, 0xf79f00c04fc2dcd2)));
    assert_eq!(rights(&all, &ObjectType::Domain, false), vec!["GetChangesAll".to_string()]);
    let filtered = object_ace(0x100, Some(guid(0x89e95b76, 0x444d, 0x4c62, 0x991a0facbeda640c)));
    assert_eq!(
        rights(&filtered, &ObjectType::Domain, false),
        vec!["GetChangesInFilteredSet".to_string()]
    );
}

#[test]
fn write_spn_on_user() {
    let ace = object_ace(0x20, Some(guid(0xf3a64788, 0x5306, 0x11d1, 0xa9c50000f80367c1)));
    assert_eq!(rights(&ace, &ObjectType::User, false), vec!["WriteSPN".to_string()]);
}

#[test]
fn deny_is_ignored() {
    let ace = ACE::AccessDenied(AccessDeniedAce {
        header: ACEHeader { ace_type: ACEType::AccessDenied, ace_flags: ACEFlags::new(0), ace_size: 0 },
        mask: AccessMask::new(0xFFFFFFFF),
        sid: principal(),
    });
    assert!(rights(&ace, &ObjectType::User, false).is_empty());
}

#[test]
fn computer_extended_rights_need_laps() {
    let ace = plain_ace(0x100);
    assert!(rights(&ace, &ObjectType::Computer, false).is_empty());
    assert_eq!(rights(&ace, &ObjectType::Computer, true), vec!["AllExtendedRights".to_string()]);
}

#[test]
fn write_dacl_and_owner() {
    let ace = plain_ace(AccessMask::WRITE_DACL | AccessMask::WRITE_OWNER);
    assert_eq!(
        rights(&ace, &ObjectType::OU, false),
        vec!["WriteDacl".to_string(), "WriteOwner".to_string()]
    );
}

#[test]
fn generic_write_on_user_without_object_type() {
    let ace = plain_ace(AccessMask::GENERIC_WRITE);
    assert_eq!(rights(&ace, &ObjectType::User, false), vec!["GenericWrite".to_string()]);
    assert!(rights(&ace, &ObjectType::Domain, false).is_empty());
}

#[test]
fn add_self_and_add_member_on_group() {
    let member = guid(0xbf9679c0, 0x0de6, 0x11d0, 0xa28500aa003049e2);
    let self_ace = object_ace(0x8, Some(member));
    assert_eq!(rights(&self_ace, &ObjectType::Group, false), vec!["AddSelf".to_string()]);
    let write_ace = object_ace(0x20, Some(member));
    assert_eq!(rights(&write_ace, &ObjectType::Group, false), vec!["AddMember".to_string()]);
}

#[test]
fn computer_write_rights() {
    let act = object_ace(0x20, Some(guid(0x3f78c3e5, 0xf79a, 0x46bd, 0xa0b89d18116ddc79)));
    assert_eq!(rights(&act, &ObjectType::Computer, false), vec!["AddAllowedToAct".to_string()]);
    let restr = object_ace(0x20, Some(guid(0x4c164200, 0x20c0, 0x11d0, 0xa76800aa006e0529)));
    assert_eq!(
        rights(&restr, &ObjectType::Computer, false),
        vec!["WriteAccountRestrictions".to_string()]
    );
    let key = object_ace(0x20, Some(guid(0x5b47d60f, 0x6090, 0x40b2, 0x9f372a4de88f3063)));
    assert_eq!(rights(&key, &ObjectType::Computer, false), vec!["AddKeyCredentialLink".to_string()]);
}

#[test]
fn force_change_password_on_user() {
    let ace = object_ace(0x100, Some(guid(0x00299570, 0x246d, 0x11d0, 0xa76800aa006e0529)));
    assert_eq!(rights(&ace, &ObjectType::User, false), vec!["ForceChangePassword".to_string()]);
}

#[test]
fn generic_all_with_specific_object_type_is_not_generic_all() {
    let ace = object_ace(0x10000000, Some(guid(0xf3a64788, 0x5306, 0x11d1, 0xa9c50000f80367c1)));
    assert!(rights(&ace, &ObjectType::User, false).is_empty());
}
