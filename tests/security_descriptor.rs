use adexplorersnapshot::error::ParseError;
use adexplorersnapshot::security_descriptor::acl::parse_acl;
use adexplorersnapshot::security_descriptor::ace::{parse_ace, ACE};
use adexplorersnapshot::security_descriptor::control_flags::ControlFlag;
use adexplorersnapshot::security_descriptor::sddl::SDDL;

fn admins_sid() -> Vec<u8> {
    vec![1, 2, 0, 0, 0, 0, 0, 5, 32, 0, 0, 0, 32, 2, 0, 0]
}

fn allowed_ace(mask: u32, flags: u8) -> Vec<u8> {
    let sid = admins_sid();
    let mut v = vec![0u8, flags];
    v.extend_from_slice(&((8 + sid.len()) as u16).to_le_bytes());
    v.extend_from_slice(&mask.to_le_bytes());
    v.extend(sid);
    v
}

fn object_ace(mask: u32, guid: [u8; 16]) -> Vec<u8> {
    let sid = admins_sid();
    let mut v = vec![5u8, 0];
    v.extend_from_slice(&((12 + 16 + sid.len()) as u16).to_le_bytes());
    v.extend_from_slice(&mask.to_le_bytes());
    v.extend_from_slice(&1u32.to_le_bytes());
    v.extend_from_slice(&guid);
    v.extend(sid);
    v
}

fn acl(aces: &[Vec<u8>]) -> Vec<u8> {
    let body: Vec<u8> = aces.iter().flatten().copied().collect();
    let mut v = vec![2u8, 0];
    v.extend_from_slice(&((8 + body.len()) as u16).to_le_bytes());
    v.extend_from_slice(&(aces.len() as u16).to_le_bytes());
    v.extend_from_slice(&[0, 0]);
    v.extend(body);
    v
}

#[test]
fn ace_sizes_fill_the_acl() {
    let a = allowed_ace(0x10000000, 0x10);
    let b = object_ace(0x100, [0u8; 16]);
    let bytes = acl(&[a.clone(), b.clone()]);
    let parsed = parse_acl(&bytes, 0).unwrap();
    assert_eq!(parsed.aces.len(), 2);
    let sum: u16 = parsed.aces.iter().map(|x| x.header().ace_size).sum();
    assert_eq!(sum, parsed.acl_size - 8);
    assert_eq!(parsed.aces[0].mask().as_u32(), 0x10000000);
    assert!(parsed.aces[0].header().ace_flags.is_set(0x10));
    assert!(parsed.aces[1].object_type().unwrap().is_zero());
}

#[test]
fn acl_size_mismatch_is_rejected() {
    let mut bytes = acl(&[allowed_ace(1, 0)]);
    bytes[2] += 4;
    bytes.extend_from_slice(&[0, 0, 0, 0]);
    assert!(parse_acl(&bytes, 0).is_err());
}

#[test]
fn acl_bad_revision_is_rejected() {
    let mut bytes = acl(&[allowed_ace(1, 0)]);
    bytes[0] = 3;
    assert_eq!(parse_acl(&bytes, 0).unwrap_err(), ParseError::MalformedInput);
}

#[test]
fn unsupported_ace_is_skipped() {
    let mut other = allowed_ace(1, 0);
    other[0] = 0x11;
    assert_eq!(parse_ace(&other, 0).unwrap_err(), ParseError::UnsupportedAceType);
    let bytes = acl(&[other, allowed_ace(2, 0)]);
    let parsed = parse_acl(&bytes, 0).unwrap();
    assert_eq!(parsed.aces.len(), 1);
    assert_eq!(parsed.aces[0].mask().as_u32(), 2);
}

#[test]
fn security_descriptor_with_owner_and_dacl() {
    let sid = admins_sid();
    let dacl = acl(&[allowed_ace(0x40000, 0)]);
    let mut sd = vec![1u8, 0];
    sd.extend_from_slice(&0x8004u16.to_le_bytes());
    sd.extend_from_slice(&20u32.to_le_bytes());
    sd.extend_from_slice(&0u32.to_le_bytes());
    sd.extend_from_slice(&0u32.to_le_bytes());
    sd.extend_from_slice(&((20 + sid.len()) as u32).to_le_bytes());
    sd.extend(sid);
    sd.extend(dacl);
    let parsed = SDDL::from_bytes(&sd).unwrap();
    assert!(parsed.control_flags.is_set(ControlFlag::DP));
    assert_eq!(parsed.owner_sid().unwrap().to_string(), "S-1-5-32-544");
    assert!(parsed.group_sid().is_none());
    assert!(parsed.sacl().is_none());
    assert_eq!(parsed.dacl().unwrap().aces.len(), 1);
    match &parsed.dacl().unwrap().aces[0] {
        ACE::AccessAllowed(a) => assert_eq!(a.sid.to_string(), "S-1-5-32-544"),
        _ => panic!("unexpected ACE kind"),
    }
}

#[test]
fn security_descriptor_too_short_is_rejected() {
    assert!(SDDL::from_bytes(&[1, 0, 4, 0]).is_err());
}
