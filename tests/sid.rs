use adexplorersnapshot::sid::SID;
use std::collections::hash_map::DefaultHasher;
use std::hash::{Hash, Hasher};

#[test]
fn test_sid_creation_and_to_string() {
    let octet_string = vec![1, 2, 0, 0, 0, 0, 0, 5, 32, 0, 0, 0, 32, 2, 0, 0];
    let sid = SID::from_bytes(&octet_string).unwrap();
    assert_eq!(sid.to_string(), "S-1-5-32-544");
}

#[test]
fn test_sid_equality() {
    let octet_string1 = vec![
        1, 5, 0, 0, 0, 0, 0, 5, 21, 0, 0, 0, 45, 65, 88, 115, 197, 187, 192, 93, 42, 109, 38, 58,
        80, 4, 0, 0,
    ];
    let octet_string2 = vec![
        1, 5, 0, 0, 0, 0, 0, 5, 21, 0, 0, 0, 45, 65, 88, 115, 197, 187, 192, 93, 42, 109, 38, 58,
        80, 4, 0, 0,
    ];
    let sid1 = SID::from_bytes(&octet_string1).unwrap();
    let sid2 = SID::from_bytes(&octet_string2).unwrap();
    assert_eq!(sid1, sid2);
}

#[test]
fn test_sid_hash() {
    let octet_string1 = vec![
        1, 5, 0, 0, 0, 0, 0, 5, 21, 0, 0, 0, 45, 65, 88, 115, 197, 187, 192, 93, 42, 109, 38, 58,
        80, 4, 0, 0,
    ];
    let octet_string2 = vec![
        1, 5, 0, 0, 0, 0, 0, 5, 21, 0, 0, 0, 45, 65, 88, 115, 197, 187, 192, 93, 42, 109, 38, 58,
        80, 4, 0, 0,
    ];
    let sid1 = SID::from_bytes(&octet_string1).unwrap();
    let sid2 = SID::from_bytes(&octet_string2).unwrap();
    let mut hasher1 = DefaultHasher::new();
    let mut hasher2 = DefaultHasher::new();
    sid1.hash(&mut hasher1);
    sid2.hash(&mut hasher2);
    assert_eq!(hasher1.finish(), hasher2.finish());
}

#[test]
fn sid_domain_user_to_string() {
    let bytes = [
        0x01, 0x05, 0x00, 0x00, 0x00, 0x00, 0x00, 0x05, 0x15, 0x00, 0x00, 0x00, 0x2D, 0x41, 0x58,
        0x73, 0xC5, 0xBB, 0xC0, 0x5D, 0x2A, 0x6D, 0x26, 0x3A, 0x50, 0x04, 0x00, 0x00,
    ];
    let sid = SID::from_bytes(&bytes).unwrap();
    assert_eq!(sid.to_string(), "S-1-5-21-1935163693-1572912069-975596842-1104");
    assert_eq!(sid.sub_authority_count(), 5);
}

#[test]
fn sid_too_many_sub_authorities_is_rejected() {
    let mut bytes = vec![1u8, 16, 0, 0, 0, 0, 0, 5];
    bytes.extend(std::iter::repeat(0u8).take(64));
    assert!(SID::from_bytes(&bytes).is_none());
}

#[test]
fn sid_short_input_is_rejected() {
    let bytes = [1u8, 2, 0, 0, 0, 0, 0, 5, 32, 0, 0, 0];
    assert!(SID::from_bytes(&bytes).is_none());
}

#[test]
fn sid_large_authority_in_decimal() {
    let bytes = [1u8, 0, 0x01, 0x02, 0x03, 0x04, 0x05, 0x06];
    let sid = SID::from_bytes(&bytes).unwrap();
    assert_eq!(sid.to_string(), format!("S-1-{}", 0x010203040506u64));
}

#[test]
fn sid_text_round_trip() {
    let bytes = [
        0x01, 0x05, 0x00, 0x00, 0x00, 0x00, 0x00, 0x05, 0x15, 0x00, 0x00, 0x00, 0x2D, 0x41, 0x58,
        0x73, 0xC5, 0xBB, 0xC0, 0x5D, 0x2A, 0x6D, 0x26, 0x3A, 0x50, 0x04, 0x00, 0x00,
    ];
    let sid = SID::from_bytes(&bytes).unwrap();
    let back: SID = sid.to_string().parse().unwrap();
    assert_eq!(back, sid);
    let admins = SID::from_text("S-1-5-32-544").unwrap();
    assert_eq!(admins.sub_authorities, vec![32, 544]);
    assert_eq!(admins.to_string(), "S-1-5-32-544");
}

#[test]
fn sid_text_without_sub_authorities() {
    let sid = SID::from_text("S-1-5").unwrap();
    assert_eq!(sid.sub_authority_count(), 0);
    assert_eq!(sid.to_string(), "S-1-5");
}

#[test]
fn sid_text_rejects_non_canonical_forms() {
    assert!(SID::from_text("S-01-5-32").is_none());
    assert!(SID::from_text("s-1-5-32").is_none());
    assert!(SID::from_text("S-1-5-").is_none());
    assert!(SID::from_text("S-1").is_none());
    assert!(SID::from_text("S-256-5-1").is_none());
    assert!(SID::from_text("S-1-5-4294967296").is_none());
    assert!("S-1-x".parse::<SID>().is_err());
}

#[test]
fn sid_test_from_next_bytes() {
    let input = vec![
        1, 2, 0, 0, 0, 0, 0, 5, 32, 0, 0, 0, 32, 2, 0, 0, 1, 5, 0, 0, 0, 0, 0, 5, 21, 0, 0, 0, 45,
        65, 88, 115, 197, 187, 192, 93, 42, 109, 38, 58, 80, 4, 0, 0, 0xFF, 0xFF,
    ];
    let (remaining, sid1) = SID::from_next_bytes(&input).unwrap();
    assert_eq!(sid1.to_string(), "S-1-5-32-544");
    assert_eq!(remaining.len(), input.len() - 16);
    let (remaining, sid2) = SID::from_next_bytes(remaining).unwrap();
    assert_eq!(sid2.to_string(), "S-1-5-21-1935163693-1572912069-975596842-1104");
    assert_eq!(remaining, &[0xFF, 0xFF]);
}
