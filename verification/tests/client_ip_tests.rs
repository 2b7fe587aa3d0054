use user_service::middleware::client_ip::resolve_ip;

#[test]
fn xff_takes_priority() {
    assert_eq!(resolve_ip(Some("1.2.3.4, 5.6.7.8"), None), "1.2.3.4");
}

#[test]
fn falls_back_to_unknown() {
    assert_eq!(resolve_ip(None, None), "unknown");
}

#[test]
fn connect_info_used_when_no_xff() {
    assert_eq!(resolve_ip(None, Some("1.2.3.4".to_string())), "1.2.3.4");
}

#[test]
fn xff_preferred_over_connection() {
    assert_eq!(
        resolve_ip(Some("  9.9.9.9  ,1.1.1.1"), Some("1.2.3.4".to_string())),
        "9.9.9.9"
    );
}

#[test]
fn blank_xff_falls_back_to_connection() {
    assert_eq!(resolve_ip(Some("  , 5.6.7.8"), Some("1.2.3.4".to_string())), "1.2.3.4");
    assert_eq!(resolve_ip(Some(""), None), "unknown");
}
