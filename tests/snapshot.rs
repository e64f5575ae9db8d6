use adexplorersnapshot::adexplorer::ADExplorerSnapshot;
use adexplorersnapshot::common::{ldap2domain, type_string};
use adexplorersnapshot::parser::attribute::AttributeValue;
use adexplorersnapshot::parser::object::ObjectType;

fn put_u32(v: &mut Vec<u8>, x: u32) {
    v.extend_from_slice(&x.to_le_bytes());
}

fn utf16z(s: &str) -> Vec<u8> {
    let mut out = Vec::new();
    for u in s.encode_utf16() {
        out.extend_from_slice(&u.to_le_bytes());
    }
    out.extend_from_slice(&[0, 0]);
    out
}

fn prefixed(s: &str) -> Vec<u8> {
    let body = utf16z(s);
    let mut out = Vec::new();
    put_u32(&mut out, body.len() as u32);
    out.extend(body);
    out
}

/// One string-like attribute value block: count, offsets, then the strings.
fn string_attr(values: &[&str]) -> Vec<u8> {
    let mut out = Vec::new();
    put_u32(&mut out, values.len() as u32);
    let mut offset = 4 + 4 * values.len() as u32;
    let mut pool = Vec::new();
    for v in values {
        put_u32(&mut out, offset);
        let b = utf16z(v);
        offset += b.len() as u32;
        pool.extend(b);
    }
    out.extend(pool);
    out
}

fn integer_attr(x: u32) -> Vec<u8> {
    let mut out = Vec::new();
    put_u32(&mut out, 1);
    put_u32(&mut out, x);
    out
}

fn octet_attr(b: &[u8]) -> Vec<u8> {
    let mut out = Vec::new();
    put_u32(&mut out, 1);
    put_u32(&mut out, b.len() as u32);
    out.extend_from_slice(b);
    out
}

fn utc_attr(year: u16, month: u16, day: u16, hour: u16, minute: u16, second: u16) -> Vec<u8> {
    let mut out = Vec::new();
    put_u32(&mut out, 1);
    for x in [year, month, 0, day, hour, minute, second, 0] {
        out.extend_from_slice(&x.to_le_bytes());
    }
    out
}

fn object(attrs: &[(u32, Vec<u8>)]) -> Vec<u8> {
    let table = 8 * attrs.len() as u32;
    let mut body = Vec::new();
    let mut entries = Vec::new();
    let mut offset = 8 + table;
    for (idx, a) in attrs {
        entries.push((*idx, offset));
        offset += a.len() as u32;
        body.extend(a.clone());
    }
    let mut out = Vec::new();
    put_u32(&mut out, offset);
    put_u32(&mut out, attrs.len() as u32);
    for (idx, off) in entries {
        put_u32(&mut out, idx);
        put_u32(&mut out, off);
    }
    out.extend(body);
    out
}

const PROPS: [(&str, u32); 13] = [
    ("distinguishedName", 1),
    ("objectClass", 3),
    ("userAccountControl", 7),
    ("objectSid", 8),
    ("name", 3),
    ("whenCreated", 9),
    ("sAMAccountType", 7),
    ("dNSHostName", 3),
    ("gPCFileSysPath", 3),
    ("nTSecurityDescriptor", 25),
    ("certificateTemplates", 3),
    ("systemFlags", 7),
    ("nCName", 1),
];

fn snapshot_bytes(objects: &[Vec<u8>]) -> Vec<u8> {
    let mut data = Vec::new();
    data.extend_from_slice(b"win-ad-sig");
    put_u32(&mut data, 3);
    data.extend_from_slice(&0u64.to_le_bytes());
    let mut desc = utf16z("test");
    desc.resize(520, 0);
    data.extend(desc.clone());
    data.extend(desc);
    assert_eq!(data.len(), 0x426);
    put_u32(&mut data, objects.len() as u32);
    put_u32(&mut data, PROPS.len() as u32);
    let mut body = Vec::new();
    for o in objects {
        body.extend(o.clone());
    }
    let props_offset = 0x43e + body.len() as u32;
    put_u32(&mut data, props_offset);
    put_u32(&mut data, 0);
    put_u32(&mut data, 0);
    put_u32(&mut data, 0);
    assert_eq!(data.len(), 0x43e);
    data.extend(body);
    put_u32(&mut data, PROPS.len() as u32);
    for (name, ads) in PROPS.iter() {
        data.extend(prefixed(name));
        put_u32(&mut data, 0);
        put_u32(&mut data, *ads);
        data.extend(prefixed(&format!("CN={},CN=Schema", name)));
        data.extend_from_slice(&[0u8; 32]);
        data.extend_from_slice(&[0u8; 4]);
    }
    put_u32(&mut data, 0);
    put_u32(&mut data, 0);
    data
}

fn user_sid() -> Vec<u8> {
    vec![
        0x01, 0x05, 0x00, 0x00, 0x00, 0x00, 0x00, 0x05, 0x15, 0x00, 0x00, 0x00, 0x2D, 0x41, 0x58,
        0x73, 0xC5, 0xBB, 0xC0, 0x5D, 0x2A, 0x6D, 0x26, 0x3A, 0x50, 0x04, 0x00, 0x00,
    ]
}

fn allowed_ace(mask: u32, flags: u8, sid: &[u8]) -> Vec<u8> {
    let mut v = vec![0u8, flags];
    v.extend_from_slice(&((8 + sid.len()) as u16).to_le_bytes());
    v.extend_from_slice(&mask.to_le_bytes());
    v.extend_from_slice(sid);
    v
}

/// A descriptor owned by the user, whose DACL gives the user WriteDacl
/// (inherited) and an unknown principal GenericAll.
fn sd_attr(control: u16) -> Vec<u8> {
    let owner = user_sid();
    let unknown = vec![1u8, 1, 0, 0, 0, 0, 0, 5, 99, 0, 0, 0];
    let aces = [allowed_ace(0x40000, 0x10, &owner), allowed_ace(0x10000000, 0, &unknown)];
    let body: Vec<u8> = aces.iter().flatten().copied().collect();
    let mut acl = vec![2u8, 0];
    acl.extend_from_slice(&((8 + body.len()) as u16).to_le_bytes());
    acl.extend_from_slice(&2u16.to_le_bytes());
    acl.extend_from_slice(&[0, 0]);
    acl.extend(body);
    let mut sd = vec![1u8, 0];
    sd.extend_from_slice(&control.to_le_bytes());
    put_u32(&mut sd, 20);
    put_u32(&mut sd, 0);
    put_u32(&mut sd, 0);
    put_u32(&mut sd, (20 + owner.len()) as u32);
    sd.extend(owner);
    sd.extend(acl);
    let mut out = Vec::new();
    put_u32(&mut out, 1);
    put_u32(&mut out, sd.len() as u32);
    out.extend(sd);
    out
}

fn sample() -> Vec<u8> {
    let user = object(&[
        (0, string_attr(&["CN=Alice,OU=Staff,DC=foo,DC=bar"])),
        (1, string_attr(&["top", "person", "user"])),
        (2, integer_attr(0x200)),
        (3, octet_attr(&user_sid())),
    ]);
    let ou = object(&[
        (0, string_attr(&["OU=Staff,DC=foo,DC=bar"])),
        (1, string_attr(&["top", "organizationalUnit"])),
        (9, sd_attr(0x9004)),
    ]);
    let dc = object(&[
        (0, string_attr(&["CN=DC1,OU=Staff,DC=foo,DC=bar"])),
        (1, string_attr(&["top", "computer"])),
        (2, integer_attr(0x2000)),
        (99, integer_attr(7)),
        (6, integer_attr(805306369)),
        (7, string_attr(&["dc1.foo.bar"])),
        (4, string_attr(&["DC1"])),
    ]);
    let deep = object(&[
        (0, string_attr(&["CN=Deep,CN=Alice,OU=Staff,DC=foo,DC=bar"])),
        (9, sd_attr(0x8004)),
    ]);
    let domain = object(&[
        (0, string_attr(&["DC=foo,DC=bar"])),
        (1, string_attr(&["top", "Domain"])),
        (5, utc_attr(2020, 1, 2, 3, 4, 5)),
    ]);
    let gpo = object(&[
        (0, string_attr(&["CN={31B2F340-016D-11D2-945F-00C04FB984F9},CN=Policies,DC=foo,DC=bar"])),
        (1, string_attr(&["top", "container"])),
        (8, string_attr(&["\\\\foo.bar\\SysVol"])),
    ]);
    snapshot_bytes(&[user, ou, dc, deep, domain, gpo])
}

#[test]
fn parses_objects_and_attributes() {
    let data = sample();
    let snap = ADExplorerSnapshot::snapshot_from_memory(&data).unwrap();
    assert_eq!(snap.snapshot.objects.len(), 6);
    assert_eq!(snap.snapshot.properties.len(), 13);
    assert_eq!(snap.snapshot.header.server, "test");
    let user = &snap.snapshot.objects[0];
    match user.get_first("distinguishedName") {
        Some(AttributeValue::String(s)) => assert_eq!(s, "CN=Alice,OU=Staff,DC=foo,DC=bar"),
        _ => panic!("missing distinguishedName"),
    }
    assert_eq!(
        user.get_attribute_classes().unwrap(),
        vec!["top".to_string(), "person".to_string(), "user".to_string()]
    );
    assert!(user.has_attribute_class("person"));
    assert!(!user.has_attribute_class("Person"));
    assert_eq!(user.get_type(), ObjectType::User);
    assert_eq!(type_string(user), "User");
    assert_eq!(
        user.get_object_identifier().unwrap(),
        "S-1-5-21-1935163693-1572912069-975596842-1104"
    );
    assert_eq!(snap.snapshot.objects[1].get_type(), ObjectType::OU);
    assert_eq!(snap.snapshot.objects[2].get_type(), ObjectType::Computer);
    assert_eq!(snap.snapshot.objects[3].get_type(), ObjectType::Unknown);
    let mut names = user.get_attribute_names();
    names.sort();
    assert_eq!(names, vec!["distinguishedName", "objectClass", "objectSid", "userAccountControl"]);
}

#[test]
fn each_object_ends_obj_size_after_its_start() {
    // Objects are read one after the other from their declared sizes; a
    // wrong size would shift every later object.
    let data = sample();
    let snap = ADExplorerSnapshot::snapshot_from_memory(&data).unwrap();
    let mut pos = 0x43eusize;
    for o in snap.snapshot.objects.iter() {
        let size = u32::from_le_bytes([data[pos], data[pos + 1], data[pos + 2], data[pos + 3]]);
        assert_eq!(o.obj_size, size);
        pos += size as usize;
    }
    // the property table follows the last object directly
    assert_eq!(pos, snap.snapshot.header.fileoffset_low as usize);
}

#[test]
fn indexes_sid_dn_and_controllers() {
    let data = sample();
    let snap = ADExplorerSnapshot::snapshot_from_memory(&data).unwrap();
    let sid = adexplorersnapshot::sid::SID::from_bytes(&user_sid()).unwrap();
    assert!(snap.get_sid(&sid).is_some());
    assert!(snap.get_dn("cn=alice,ou=staff,dc=foo,dc=bar").is_some());
    assert!(snap.get_dn("CN=ALICE,OU=STAFF,DC=FOO,DC=BAR").is_some());
    assert!(snap.get_dn("CN=Nobody,DC=foo,DC=bar").is_none());
    assert_eq!(snap.caches.domain_controllers, vec![2]);
}

#[test]
fn dn_lookup_ignores_case() {
    let data = sample();
    let snap = ADExplorerSnapshot::snapshot_from_memory(&data).unwrap();
    let a = snap.caches.dn_cache.get(&"OU=Staff,DC=foo,DC=bar".to_string()).copied();
    let b = snap.caches.dn_cache.get(&"ou=STAFF,dc=FOO,dc=bar".to_string()).copied();
    assert_eq!(a, Some(1));
    assert_eq!(a, b);
}

#[test]
fn ou_children_are_one_level_down() {
    let data = sample();
    let snap = ADExplorerSnapshot::snapshot_from_memory(&data).unwrap();
    let mut children = snap.caches.dn_cache.get_ou_children("OU=Staff,DC=foo,DC=bar");
    children.sort();
    assert_eq!(children, vec![0, 2]);
}

#[test]
fn bad_magic_is_rejected() {
    let mut data = sample();
    data[0] = b'X';
    assert!(ADExplorerSnapshot::snapshot_from_memory(&data).is_err());
}

#[test]
fn truncated_snapshot_is_rejected() {
    let data = sample();
    assert!(ADExplorerSnapshot::snapshot_from_memory(&data[..data.len() - 6]).is_err());
}

#[test]
fn ldap2domain_joins_dc_parts() {
    assert_eq!(ldap2domain("CN=x,OU=a,DC=foo,DC=bar"), "foo.bar");
    assert_eq!(ldap2domain("CN=x,OU=a"), "");
    assert_eq!(ldap2domain("dc=lab,dc=local"), "lab.local");
}

#[test]
fn utc_time_and_domain_classification() {
    let data = sample();
    let snap = ADExplorerSnapshot::snapshot_from_memory(&data).unwrap();
    let domain = &snap.snapshot.objects[4];
    let when = domain.get_first("whenCreated").unwrap();
    assert_eq!(when.as_unix_timestamp(), Some(1577934245));
    // the class list is compared in lower case when the domain is recorded
    assert_eq!(snap.caches.root_domain.as_deref(), Some("DC=foo,DC=bar"));
    assert!(snap.get_root_domain().is_some());
    // but classification compares the class names exactly
    assert_eq!(domain.get_type(), ObjectType::Unknown);
}

#[test]
fn gpo_path_wins_over_classes() {
    let data = sample();
    let snap = ADExplorerSnapshot::snapshot_from_memory(&data).unwrap();
    let gpo = &snap.snapshot.objects[5];
    assert_eq!(gpo.get_type(), ObjectType::GPO);
    assert_eq!(type_string(gpo), "GPO");
}

#[test]
fn computers_by_host_name_and_name() {
    let data = sample();
    let snap = ADExplorerSnapshot::snapshot_from_memory(&data).unwrap();
    assert!(snap.get_computer("DC1.FOO.BAR").is_some());
    assert!(snap.get_computer("dc1").is_some());
    assert!(snap.get_computer("dc2").is_none());
}

#[test]
fn invalid_utc_time_is_rejected() {
    let bad = object(&[(5, utc_attr(2020, 13, 2, 3, 4, 5))]);
    let data = snapshot_bytes(&[bad]);
    assert!(ADExplorerSnapshot::snapshot_from_memory(&data).is_err());
    let bad_hour = object(&[(5, utc_attr(2020, 1, 2, 24, 0, 0))]);
    assert!(ADExplorerSnapshot::snapshot_from_memory(&snapshot_bytes(&[bad_hour])).is_err());
    let bad_day = object(&[(5, utc_attr(2021, 2, 29, 0, 0, 0))]);
    assert!(ADExplorerSnapshot::snapshot_from_memory(&snapshot_bytes(&[bad_day])).is_err());
}

#[test]
fn filetime_to_unix_seconds() {
    assert_eq!(AttributeValue::LargeInteger(0).as_unix_timestamp(), Some(0));
    assert_eq!(
        AttributeValue::LargeInteger(132223104000000000).as_unix_timestamp(),
        Some(1577836800)
    );
    assert_eq!(AttributeValue::LargeInteger(1).as_unix_timestamp(), Some(-11644473599));
    assert_eq!(AttributeValue::UTCTime(42).as_unix_timestamp(), Some(42));
    assert_eq!(AttributeValue::Integer(42).as_unix_timestamp(), None);
}

#[test]
fn owner_row_comes_first() {
    let data = sample();
    let snap = ADExplorerSnapshot::snapshot_from_memory(&data).unwrap();
    let ou = &snap.snapshot.objects[1];
    // PD (0x1000) is set on this descriptor
    assert!(adexplorersnapshot::common::is_acl_protected(ou));
    // DP (0x0004) alone does not protect the DACL
    assert!(!adexplorersnapshot::common::is_acl_protected(&snap.snapshot.objects[3]));
    assert!(!adexplorersnapshot::common::is_acl_protected(&snap.snapshot.objects[0]));
    let rows = adexplorersnapshot::aces::get_aces(ou, &snap);
    assert_eq!(rows.len(), 2);
    assert_eq!(rows[0].right_name, "Owns");
    assert_eq!(rows[0].principal_sid, "S-1-5-21-1935163693-1572912069-975596842-1104");
    assert_eq!(rows[0].principal_type, "User");
    assert!(!rows[0].is_inherited);
    assert_eq!(rows[1].right_name, "WriteDacl");
    assert_eq!(rows[1].principal_type, "User");
    assert!(rows[1].is_inherited);
    assert!(adexplorersnapshot::aces::get_aces(&snap.snapshot.objects[0], &snap).is_empty());
}

#[test]
fn object_identifiers() {
    let data = sample();
    let snap = ADExplorerSnapshot::snapshot_from_memory(&data).unwrap();
    assert_eq!(
        adexplorersnapshot::common::get_sid(&snap.snapshot.objects[0]),
        "S-1-5-21-1935163693-1572912069-975596842-1104"
    );
    assert_eq!(adexplorersnapshot::common::get_sid(&snap.snapshot.objects[3]), "ERR_UNKNOWN");
}

/// An object whose single attribute points back into the bytes of the
/// object before it.
fn pooled_pair(back: i32) -> Vec<u8> {
    let first = object(&[(0, string_attr(&["CN=First,DC=foo,DC=bar"]))]);
    // the first object's attribute block starts 16 bytes after its start
    let mut second = Vec::new();
    put_u32(&mut second, 16);
    put_u32(&mut second, 1);
    put_u32(&mut second, 0);
    put_u32(&mut second, back as u32);
    let _ = first.len();
    snapshot_bytes(&[first, second])
}

#[test]
fn negative_offsets_reach_pooled_values() {
    let first_len = object(&[(0, string_attr(&["CN=First,DC=foo,DC=bar"]))]).len() as i32;
    let data = pooled_pair(16 - first_len);
    let snap = ADExplorerSnapshot::snapshot_from_memory(&data).unwrap();
    match snap.snapshot.objects[1].get_first("distinguishedName") {
        Some(AttributeValue::String(s)) => assert_eq!(s, "CN=First,DC=foo,DC=bar"),
        _ => panic!("pooled value not found"),
    }
    assert_eq!(snap.snapshot.objects[1].obj_size, 16);
}

#[test]
fn offsets_before_the_input_are_rejected() {
    let data = pooled_pair(-0x10000);
    assert!(ADExplorerSnapshot::snapshot_from_memory(&data).is_err());
}

#[test]
fn unknown_property_index_is_skipped() {
    let data = sample();
    let snap = ADExplorerSnapshot::snapshot_from_memory(&data).unwrap();
    // the controller's entry with property index 99 is ignored
    let dc = &snap.snapshot.objects[2];
    assert_eq!(dc.mapping_table.len(), 7);
    assert_eq!(dc.get_attribute_names().len(), 6);
}

#[test]
fn templates_and_forest_domains() {
    let ca = object(&[
        (0, string_attr(&["CN=CA1,CN=Enrollment Services,DC=foo,DC=bar"])),
        (1, string_attr(&["top", "pKIEnrollmentService"])),
        (4, string_attr(&["CA1"])),
        (10, string_attr(&["User", "Machine", "User"])),
    ]);
    let ca2 = object(&[
        (1, string_attr(&["pKIEnrollmentService"])),
        (4, string_attr(&["CA2"])),
        (10, string_attr(&["User"])),
    ]);
    let domain = object(&[
        (0, string_attr(&["DC=foo,DC=bar"])),
        (1, string_attr(&["top", "domain"])),
    ]);
    let cross = object(&[
        (1, string_attr(&["top", "crossRef"])),
        (11, integer_attr(3)),
        (12, string_attr(&["DC=child,DC=foo,DC=bar"])),
    ]);
    let cross_same = object(&[
        (1, string_attr(&["crossRef"])),
        (11, integer_attr(2)),
        (12, string_attr(&["DC=foo,DC=bar"])),
    ]);
    let cross_off = object(&[
        (1, string_attr(&["crossRef"])),
        (11, integer_attr(1)),
        (12, string_attr(&["DC=other,DC=bar"])),
    ]);
    let data = snapshot_bytes(&[ca, ca2, domain, cross, cross_same, cross_off]);
    let snap = ADExplorerSnapshot::snapshot_from_memory(&data).unwrap();
    let mut user = snap.caches.certificate_template_cache.get("User").unwrap().clone();
    user.sort();
    assert_eq!(user, vec!["CA1".to_string(), "CA2".to_string()]);
    assert_eq!(
        snap.caches.certificate_template_cache.get("Machine").unwrap(),
        &vec!["CA1".to_string()]
    );
    // template names are compared without regard to case
    assert_eq!(
        snap.caches.certificate_template_cache.get("user"),
        snap.caches.certificate_template_cache.get("USER")
    );
    assert!(snap.caches.certificate_template_cache.get("user").is_some());
    assert!(snap.caches.certificate_template_cache.get("Nope").is_none());
    let domains = &snap.caches.domain_cache;
    assert_eq!(domains.get("DC=foo,DC=bar"), Some(&2));
    assert_eq!(domains.get("dc=FOO,dc=bar"), Some(&2));
    assert_eq!(domains.get("DC=child,DC=foo,DC=bar"), Some(&3));
    assert_eq!(domains.get("DC=other,DC=bar"), None);
    assert_eq!(snap.caches.root_domain_index, Some(2));
    assert!(std::ptr::eq(snap.get_root_domain().unwrap(), &snap.snapshot.objects[2]));
    assert_eq!(snap.caches.root_domain.as_deref(), Some("DC=foo,DC=bar"));
}

#[test]
fn ou_children_exclude_empty_rdn_and_deeper_levels() {
    let mut c = adexplorersnapshot::cache::DNCache::new();
    c.insert("CN=A,OU=X,DC=foo,DC=bar".to_string(), 0);
    c.insert(",OU=X,DC=foo,DC=bar".to_string(), 1);
    c.insert("OU=X,DC=foo,DC=bar".to_string(), 2);
    c.insert("CN=B,CN=A,OU=X,DC=foo,DC=bar".to_string(), 3);
    c.insert("cn=c,ou=x,dc=foo,dc=bar".to_string(), 4);
    let mut children = c.get_ou_children("OU=X,DC=foo,DC=bar");
    children.sort();
    assert_eq!(children, vec![0, 4]);
}

#[test]
fn later_objects_win_in_the_dn_index() {
    let first = object(&[(0, string_attr(&["CN=Same,DC=foo,DC=bar"]))]);
    let second = object(&[(0, string_attr(&["cn=same,dc=foo,dc=bar"]))]);
    let data = snapshot_bytes(&[first, second]);
    let snap = ADExplorerSnapshot::snapshot_from_memory(&data).unwrap();
    assert_eq!(snap.caches.dn_cache.get(&"CN=SAME,DC=FOO,DC=BAR".to_string()), Some(&1));
}

#[test]
fn class_index_ignores_case() {
    let mut c = adexplorersnapshot::cache::Caches::new();
    c.class_cache.store("person".to_string(), 3);
    assert_eq!(c.class_cache.lookup(&"PERSON".to_string()), Some(&3));
    assert_eq!(c.class_cache.lookup(&"Person".to_string()), Some(&3));
    assert!(c.class_cache.lookup(&"user".to_string()).is_none());
}
