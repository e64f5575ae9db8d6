use adexplorersnapshot::guid::GUID;

#[test]
fn test_guid_parsing() {
    let bytes = [
        166, 109, 2, 155, 60, 13, 92, 70, 139, 238, 81, 153, 215, 22, 92, 186,
    ];
    let guid = GUID::from_bytes(&bytes).unwrap();
    assert_eq!(guid.to_string(), "9B026DA6-0D3C-465C-8BEE-5199D7165CBA");
}

#[test]
fn guid_fields_are_mixed_endian() {
    let bytes = [
        0xA6, 0x6D, 0x02, 0x9B, 0x3C, 0x0D, 0x5C, 0x46, 0x8B, 0xEE, 0x51, 0x99, 0xD7, 0x16, 0x5C,
        0xBA,
    ];
    let guid = GUID::from_bytes(&bytes).unwrap();
    assert_eq!(guid.data1, 0x9B026DA6);
    assert_eq!(guid.data2, 0x0D3C);
    assert_eq!(guid.data3, 0x465C);
    assert_eq!(guid.data4, 0x8BEE5199D7165CBA);
}

#[test]
fn guid_too_short_is_rejected() {
    let bytes = [1u8, 2, 3, 4, 5, 6, 7, 8, 9, 10, 11, 12, 13, 14, 15];
    assert!(GUID::from_bytes(&bytes).is_none());
}

#[test]
fn guid_zero_formats_with_leading_zeros() {
    let guid = GUID::from_bytes(&[0u8; 16]).unwrap();
    assert!(guid.is_zero());
    assert_eq!(guid.to_string(), "00000000-0000-0000-0000-000000000000");
}

#[test]
fn guid_extra_bytes_are_ignored() {
    let bytes = [
        166, 109, 2, 155, 60, 13, 92, 70, 139, 238, 81, 153, 215, 22, 92, 186, 0xFF, 0xFF,
    ];
    let guid = GUID::from_bytes(&bytes).unwrap();
    assert_eq!(guid.to_string(), "9B026DA6-0D3C-465C-8BEE-5199D7165CBA");
}

#[test]
fn guid_test_from_next_bytes() {
    let bytes = [
        166, 109, 2, 155, 60, 13, 92, 70, 139, 238, 81, 153, 215, 22, 92, 186, 0xFF,
        0xFF, // Additional data
    ];
    let (remaining, guid) = GUID::from_next_bytes(&bytes).unwrap();
    assert_eq!(guid.to_string(), "9B026DA6-0D3C-465C-8BEE-5199D7165CBA");
    assert_eq!(remaining, &[0xFF, 0xFF]);
}
