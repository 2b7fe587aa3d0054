use user_service::utils::profile::{
    default_nickname, normalize_avatar, normalize_phone, validate_nickname, ProfileError,
};

#[test]
fn default_nickname_from_email() {
    assert_eq!(default_nickname("alice@example.com"), "alice");
    assert_eq!(default_nickname("a.b+c@d.co"), "a.b+c");
    assert_eq!(default_nickname("no-at-sign"), "no-at-sign");
}

#[test]
fn nickname_validation() {
    assert!(validate_nickname("爱丽丝").is_ok());
    assert!(validate_nickname("a".repeat(20).as_str()).is_ok());
    assert!(validate_nickname("a".repeat(21).as_str()).is_err());
    assert!(validate_nickname("has\ncontrol").is_err());
}

#[test]
fn phone_normalization() {
    assert_eq!(normalize_phone("").unwrap(), None);
    assert_eq!(
        normalize_phone("13800138000").unwrap(),
        Some("13800138000".into())
    );
    assert!(normalize_phone("2380013800").is_err()); // wrong length
    assert!(normalize_phone("12800138000").is_err()); // second digit 2
    assert!(normalize_phone("1380013800a").is_err()); // non-digit
    assert!(normalize_phone("128001380001").is_err()); // too long
}

#[test]
fn avatar_normalization() {
    assert_eq!(normalize_avatar("").unwrap(), None);
    assert!(normalize_avatar("https://example.com/a.png").is_ok());
    assert!(normalize_avatar("http://example.com/a.png").is_ok());
    assert!(normalize_avatar("ftp://example.com/a.png").is_err());
    assert!(normalize_avatar("javascript:alert(1)").is_err());
    assert!(normalize_avatar(format!("https://e.com/{}", "a".repeat(2100)).as_str()).is_err());
}

#[test]
fn nickname_error_kinds() {
    assert_eq!(validate_nickname("bad\tname"), Err(ProfileError::ControlChars));
    assert_eq!(
        validate_nickname("a".repeat(21).as_str()),
        Err(ProfileError::NicknameTooLong)
    );
    // control characters are reported before the length
    let long_with_control = format!("{}\n", "a".repeat(30));
    assert_eq!(
        validate_nickname(long_with_control.as_str()),
        Err(ProfileError::ControlChars)
    );
    // twenty multi-byte characters are allowed
    assert!(validate_nickname("雪".repeat(20).as_str()).is_ok());
}

#[test]
fn phone_error_kind_and_digits() {
    assert_eq!(normalize_phone("12345"), Err(ProfileError::InvalidPhone));
    assert_eq!(
        normalize_phone("19999999999"),
        Ok(Some("19999999999".to_string()))
    );
    // a full-width digit is not a digit
    assert!(normalize_phone("1380013800１").is_err());
}

#[test]
fn avatar_error_kinds() {
    assert_eq!(
        normalize_avatar("ftp://example.com/a.png"),
        Err(ProfileError::InvalidAvatar)
    );
    let long = format!("https://e.com/{}", "a".repeat(2100));
    assert_eq!(normalize_avatar(&long), Err(ProfileError::AvatarTooLong));
    // exactly 2048 bytes is allowed
    let exact = format!("https://{}", "a".repeat(2040));
    assert_eq!(exact.len(), 2048);
    assert!(normalize_avatar(&exact).is_ok());
    // the limit counts bytes, not characters
    let wide = format!("https://{}", "雪".repeat(700));
    assert!(wide.chars().count() < 2048);
    assert_eq!(normalize_avatar(&wide), Err(ProfileError::AvatarTooLong));
}

#[test]
fn profile_error_messages() {
    assert!(ProfileError::ControlChars.message().contains("控制字符"));
    assert!(ProfileError::NicknameTooLong.message().contains("20"));
    assert!(ProfileError::InvalidPhone.message().contains("手机号"));
    assert!(ProfileError::InvalidAvatar.message().contains("http"));
    assert!(ProfileError::AvatarTooLong.message().contains("2048"));
}
