use livecap::registry::read_registry;

#[test]
fn registry_with_two_sources() {
    let reg = read_registry("{\"alice\": \"https://a\", \"bob\": \"https://b\"}").unwrap();
    assert_eq!(reg.entries.len(), 2);
    let mut pairs: Vec<(String, String)> =
        reg.entries.iter().map(|s| (s.id.clone(), s.addr.clone())).collect();
    pairs.sort();
    assert_eq!(
        pairs,
        vec![
            ("alice".to_string(), "https://a".to_string()),
            ("bob".to_string(), "https://b".to_string()),
        ]
    );
}

#[test]
fn registry_may_be_empty() {
    let reg = read_registry("{}").unwrap();
    assert_eq!(reg.entries.len(), 0);
}

#[test]
fn registry_keys_are_decoded() {
    let reg = read_registry("{\"al\\u0069ce\": \"https://a\"}").unwrap();
    assert_eq!(reg.entries.len(), 1);
    assert_eq!(reg.entries[0].id, "alice");
}

#[test]
fn registry_repeated_key_keeps_one_entry() {
    let reg = read_registry("{\"alice\": \"https://1\", \"alice\": \"https://2\"}").unwrap();
    assert_eq!(reg.entries.len(), 1);
    assert_eq!(reg.entries[0].id, "alice");
    assert_eq!(reg.entries[0].addr, "https://2");
}

#[test]
fn registry_text_must_be_an_object_of_strings() {
    assert!(read_registry("").is_err());
    assert!(read_registry("[\"alice\"]").is_err());
    assert!(read_registry("{\"alice\": 3}").is_err());
    assert!(read_registry("{\"alice\": \"https://a\"").is_err());
}

#[test]
fn parse_failure_is_described() {
    let err = read_registry("not a registry").unwrap_err();
    assert!(!err.detail.is_empty());
}
