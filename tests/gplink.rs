use adexplorersnapshot::links::Link;

#[test]
fn test_gplink_parsing_uppercase_cn() {
    let gplink = "[LDAP://CN={31B2F340-016D-11D2-945F-00C04FB984F9},CN=Policies,CN=System,DC=lab,DC=local;0]";
    let links = Link::from_gplink(gplink);
    assert_eq!(links.len(), 1);
    assert_eq!(links[0].guid, "31B2F340-016D-11D2-945F-00C04FB984F9");
    assert!(!links[0].is_enforced);
}

#[test]
fn test_gplink_parsing_lowercase_cn() {
    let gplink = "[LDAP://cn={31B2F340-016D-11D2-945F-00C04FB984F9},cn=Policies,cn=System,DC=lab,DC=local;0]";
    let links = Link::from_gplink(gplink);
    assert_eq!(links.len(), 1);
    assert_eq!(links[0].guid, "31B2F340-016D-11D2-945F-00C04FB984F9");
    assert!(!links[0].is_enforced);
}

#[test]
fn test_gplink_parsing_enforced() {
    let gplink = "[LDAP://CN={31B2F340-016D-11D2-945F-00C04FB984F9},CN=Policies,CN=System,DC=lab,DC=local;2]";
    let links = Link::from_gplink(gplink);
    assert_eq!(links.len(), 1);
    assert_eq!(links[0].guid, "31B2F340-016D-11D2-945F-00C04FB984F9");
    assert!(links[0].is_enforced);
}

#[test]
fn test_gplink_parsing_multiple_gpos() {
    let gplink = "[LDAP://CN={31B2F340-016D-11D2-945F-00C04FB984F9},CN=Policies,CN=System,DC=lab,DC=local;0][LDAP://CN={6AC1786C-016F-11D2-945F-00C04FB984F9},CN=Policies,CN=System,DC=lab,DC=local;2]";
    let links = Link::from_gplink(gplink);
    assert_eq!(links.len(), 2);
    assert_eq!(links[0].guid, "31B2F340-016D-11D2-945F-00C04FB984F9");
    assert!(!links[0].is_enforced);
    assert_eq!(links[1].guid, "6AC1786C-016F-11D2-945F-00C04FB984F9");
    assert!(links[1].is_enforced);
}

#[test]
fn test_gplink_parsing_empty() {
    let gplink = "";
    let links = Link::from_gplink(gplink);
    assert!(links.is_empty());
}

#[test]
fn test_gplink_guid_uppercase_conversion() {
    let gplink = "[LDAP://CN={31b2f340-016d-11d2-945f-00c04fb984f9},CN=Policies,CN=System,DC=lab,DC=local;0]";
    let links = Link::from_gplink(gplink);
    assert_eq!(links.len(), 1);
    assert_eq!(links[0].guid, "31B2F340-016D-11D2-945F-00C04FB984F9");
}

#[test]
fn gplink_stops_at_first_malformed_entry() {
    let gplink = "[LDAP://CN={A},X;0][garbage][LDAP://CN={B},X;2]";
    let links = Link::from_gplink(gplink);
    assert_eq!(links.len(), 1);
    assert_eq!(links[0].guid, "A");
}

#[test]
fn gplink_entry_without_terminator_is_dropped() {
    assert!(Link::from_gplink("[LDAP://cn={abc},x]").is_empty());
    assert!(Link::from_gplink("[LDAP://cn={abc},x;1]").is_empty());
}
