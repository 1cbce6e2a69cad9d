use soar_core::maintainer::extract_name_and_contact;

#[test]
fn extracts_name_and_contact() {
    assert_eq!(
        extract_name_and_contact("John Doe (john@example.com)"),
        Some(("John Doe".to_string(), "john@example.com".to_string()))
    );
}

#[test]
fn contact_may_hold_open_parenthesis() {
    assert_eq!(
        extract_name_and_contact("a (b(c)"),
        Some(("a".to_string(), "b(c".to_string()))
    );
}

#[test]
fn rejects_malformed_maintainers() {
    assert_eq!(extract_name_and_contact("John Doe"), None);
    assert_eq!(extract_name_and_contact("John Doe(john)"), None);
    assert_eq!(extract_name_and_contact(" (john)"), None);
    assert_eq!(extract_name_and_contact("John ()"), None);
    assert_eq!(extract_name_and_contact("John (a) b"), None);
    assert_eq!(extract_name_and_contact("Jo)hn (a)"), None);
    assert_eq!(extract_name_and_contact("John (a))"), None);
    assert_eq!(extract_name_and_contact(""), None);
}
