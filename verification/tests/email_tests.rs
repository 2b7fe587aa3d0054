use user_service::services::auth_service::is_valid_email;

#[test]
fn email_validation() {
    assert!(is_valid_email("user@example.com"));
    assert!(is_valid_email("a.b+c@d.co"));
    assert!(!is_valid_email("not-an-email"));
    assert!(!is_valid_email("@example.com"));
    assert!(!is_valid_email("user@"));
    assert!(!is_valid_email("user@example"));
    assert!(!is_valid_email("user@example.c"));
}

#[test]
fn email_domain_split_at_last_dot() {
    assert!(is_valid_email("user@mail.example.org"));
    // The host before the last dot must not be empty.
    assert!(!is_valid_email("user@.io"));
    assert!(!is_valid_email("user@.com"));
    assert!(is_valid_email("user@a.io"));
    assert!(!is_valid_email("user@example.c0m"));
    assert!(!is_valid_email("us er@example.com"));
    assert!(!is_valid_email("user@exa_mple.com"));
    assert!(!is_valid_email("a@b@c.com"));
}

#[test]
fn email_length_limit_is_254_bytes() {
    let local = "a".repeat(64);
    let domain_label = "b".repeat(185);
    let ok = format!("{local}@{domain_label}.com");
    assert_eq!(ok.len(), 254);
    assert!(is_valid_email(&ok));
    let too_long = format!("{local}@{domain_label}x.com");
    assert_eq!(too_long.len(), 255);
    assert!(!is_valid_email(&too_long));
}
