use user_service::config::Config;
use user_service::middleware::auth::session_id_from_cookie_header;
use user_service::models::{
    InMemorySessionRepository, InMemoryUserRepository, IpRateLimiter, RateLimiter,
};
use user_service::routes::auth::{build_cookie, error_response};
use user_service::services::auth_service::{AuthError, AuthService};
use user_service::utils::clock::MAX_TIMESTAMP_MS;
use user_service::utils::signed_cookie::{sign, verify_and_extract};

type Service = AuthService<InMemoryUserRepository, InMemorySessionRepository>;

const SECRET: &str = "test-secret-that-is-long-enough-ok!!";
const IP: &str = "10.0.0.1";

fn make_config(cost: u32) -> Config {
    Config {
        session_secret: SECRET.into(),
        cookie_secure: false,
        bcrypt_cost: cost,
        rate_limit_max_failures: 5,
        rate_limit_lockout_minutes: 15,
        rate_limit_ip_per_minute: 20,
        session_ttl_short: 7200,
        session_ttl_long: 604_800,
        cors_origin: "http://localhost:5173".into(),
        listen_addr: "0.0.0.0:3000".into(),
    }
}

fn make_service(cost: u32) -> Service {
    AuthService::new(
        InMemoryUserRepository::new(),
        InMemorySessionRepository::new(),
        RateLimiter::new(5, 15),
        IpRateLimiter::new(20),
        IpRateLimiter::new(20),
        make_config(cost),
    )
}

#[test]
fn register_success() {
    let mut svc = make_service(4);
    let result = svc.register(IP, "test@example.com", "Str0ng!Pass", None);
    assert!(result.is_ok());
    let r = result.unwrap();
    assert_eq!(r.email, "test@example.com");
    assert!(r.signed_cookie_value.contains('.'));
    assert_eq!(r.cookie_max_age, 7200);
}

#[test]
fn register_invalid_email() {
    let mut svc = make_service(4);
    let result = svc.register(IP, "not-an-email", "Str0ng!Pass", None);
    assert!(matches!(result, Err(AuthError::InvalidEmail)));
}

#[test]
fn register_weak_password() {
    let mut svc = make_service(4);
    let result = svc.register(IP, "test@example.com", "weak", None);
    assert!(matches!(result, Err(AuthError::WeakPassword)));
}

#[test]
fn register_duplicate_email() {
    let mut svc = make_service(4);
    svc.register(IP, "test@example.com", "Str0ng!Pass", None).unwrap();
    let result = svc.register(IP, "TEST@example.com", "Str0ng!Pass", None);
    assert!(matches!(result, Err(AuthError::EmailAlreadyExists)));
}

#[test]
fn login_success() {
    let mut svc = make_service(4);
    svc.register(IP, "test@example.com", "Str0ng!Pass", None).unwrap();

    let result = svc.login(IP, "test@example.com", "Str0ng!Pass", false);
    assert!(result.is_ok());
    let r = result.unwrap();
    assert_eq!(r.cookie_max_age, 7200);
}

#[test]
fn login_remember_me() {
    let mut svc = make_service(4);
    svc.register(IP, "test@example.com", "Str0ng!Pass", None).unwrap();

    let result = svc.login(IP, "test@example.com", "Str0ng!Pass", true);
    assert!(result.is_ok());
    let r = result.unwrap();
    assert_eq!(r.cookie_max_age, 604_800);
}

#[test]
fn login_wrong_password() {
    let mut svc = make_service(4);
    svc.register(IP, "test@example.com", "Str0ng!Pass", None).unwrap();

    let result = svc.login(IP, "test@example.com", "wrong", false);
    assert!(matches!(result, Err(AuthError::InvalidCredentials)));
}

#[test]
fn login_nonexistent_user() {
    let mut svc = make_service(4);
    let result = svc.login(IP, "nobody@example.com", "Str0ng!Pass", false);
    assert!(matches!(result, Err(AuthError::InvalidCredentials)));
}

#[test]
fn login_lockout_after_5_fails() {
    let mut svc = make_service(4);
    svc.register(IP, "test@example.com", "Str0ng!Pass", None).unwrap();

    for _ in 0..5 {
        let _ = svc.login(IP, "test@example.com", "wrong", false);
    }
    let result = svc.login(IP, "test@example.com", "Str0ng!Pass", false);
    assert!(matches!(result, Err(AuthError::TooManyAttempts)));
}

#[test]
fn logout_and_session_lookup() {
    let mut svc = make_service(4);
    let r = svc.register(IP, "test@example.com", "Str0ng!Pass", None).unwrap();

    // Session is valid.
    let (uid, email) = svc.get_user_by_session(&r.session_id).unwrap();
    assert_eq!(email, "test@example.com");
    assert_eq!(uid, r.user_id);

    // Logout.
    svc.logout(&r.session_id).unwrap();

    // Session no longer valid.
    let result = svc.get_user_by_session(&r.session_id);
    assert!(matches!(result, Err(AuthError::Unauthenticated)));
}

#[test]
fn logout_invalid_session() {
    let mut svc = make_service(4);
    let result = svc.logout("nonexistent");
    assert!(matches!(result, Err(AuthError::Unauthenticated)));
}

#[test]
fn register_at_fixed_time_stamps_session_and_user() {
    let mut svc = make_service(4);
    let now: i64 = 1_700_000_000_000;
    let r = svc
        .register_at(IP, "Alice@Example.COM", "Str0ng!Pass", Some("  Ally  "), now)
        .unwrap();
    assert_eq!(r.email, "alice@example.com");
    assert_eq!(r.nickname, "Ally");
    assert_eq!(r.session_id.len(), 64);
    assert_eq!(r.signed_cookie_value, sign(&r.session_id, SECRET));
    assert_eq!(
        verify_and_extract(&r.signed_cookie_value, SECRET).as_deref(),
        Some(r.session_id.as_str())
    );
    let user = svc.get_user(r.user_id).unwrap();
    assert_eq!(user.created_at, now);
    assert_eq!(user.updated_at, now);
    assert!(user.phone.is_none() && user.avatar.is_none());
    // Valid until the short lifetime runs out.
    assert!(svc.get_user_by_session_at(&r.session_id, now + 7_199_999).is_ok());
    assert!(matches!(
        svc.get_user_by_session_at(&r.session_id, now + 7_200_000),
        Err(AuthError::Unauthenticated)
    ));
}

#[test]
fn stored_hash_uses_configured_cost() {
    let mut svc = make_service(5);
    let r = svc.register(IP, "cost@example.com", "Str0ng!Pass", None).unwrap();
    assert!(svc.get_user(r.user_id).unwrap().password_hash.starts_with("$2b$05$"));
    svc.change_password(r.user_id, "Str0ng!Pass", "N3w!Secret").unwrap();
    assert!(svc.get_user(r.user_id).unwrap().password_hash.starts_with("$2b$05$"));
}

#[test]
fn store_registration_outcomes() {
    let mut svc = make_service(4);
    let now: i64 = 1_700_000_000_000;
    let hash = user_service::utils::password::hash_password("Str0ng!Pass", 4);
    let r = svc
        .store_registration("s@example.com".into(), "s".into(), hash, 42, now)
        .unwrap();
    assert_eq!(r.user_id, 42);
    assert_eq!(r.cookie_max_age, 7200);
    let u = svc.get_user(42).unwrap();
    assert_eq!((u.email.as_str(), u.nickname.as_str(), u.created_at), ("s@example.com", "s", now));
    // The email is now taken.
    let again = user_service::utils::password::hash_password("Str0ng!Pass", 4);
    assert!(matches!(
        svc.store_registration("S@example.com".into(), "s".into(), again, 43, now),
        Err(AuthError::EmailAlreadyExists)
    ));
    // A hashing error is Internal and stores nothing.
    let failed = user_service::utils::password::hash_password("Str0ng!Pass", 99);
    assert!(matches!(
        svc.store_registration("t@example.com".into(), "t".into(), failed, 44, now),
        Err(AuthError::Internal)
    ));
    assert!(svc.get_user(44).is_none());
}

#[test]
fn store_password_outcomes() {
    let mut svc = make_service(4);
    let r = svc.register(IP, "sp@example.com", "Str0ng!Pass", None).unwrap();
    let failed = user_service::utils::password::hash_password("N3w!Secret", 2);
    assert!(matches!(svc.store_password(r.user_id, failed, 5), Err(AuthError::Internal)));
    let h = user_service::utils::password::hash_password("N3w!Secret", 4);
    assert!(matches!(svc.store_password(999, h, 5), Err(AuthError::Unauthenticated)));
    let h = user_service::utils::password::hash_password("N3w!Secret", 4).unwrap();
    assert!(svc.store_password(r.user_id, Ok(h.clone()), 5).is_ok());
    let u = svc.get_user(r.user_id).unwrap();
    assert_eq!(u.password_hash, h);
    assert_eq!(u.updated_at, 5);
}

#[test]
fn huge_session_lifetime_reports_validation_errors_first() {
    let mut cfg = make_config(4);
    cfg.session_ttl_short = u64::MAX / 2;
    let mut svc = AuthService::new(
        InMemoryUserRepository::new(),
        InMemorySessionRepository::new(),
        RateLimiter::new(5, 15),
        IpRateLimiter::new(20),
        IpRateLimiter::new(20),
        cfg,
    );
    assert!(matches!(svc.register(IP, "bad", "Str0ng!Pass", None), Err(AuthError::InvalidEmail)));
    assert!(matches!(
        svc.register(IP, "ok@example.com", "Str0ng!Pass", None),
        Err(AuthError::Internal)
    ));
    assert!(svc.get_email_by_user_id(0).is_none());
}

#[test]
fn login_near_the_last_representable_time() {
    let mut svc = make_service(4);
    svc.register_at(IP, "late@example.com", "Str0ng!Pass", None, 1_700_000_000_000).unwrap();
    let late = MAX_TIMESTAMP_MS - 1_000;
    // Failures below the threshold set no lockout, so they are recorded.
    for _ in 0..4 {
        assert!(matches!(
            svc.login_at(IP, "late@example.com", "bad", false, late),
            Err(AuthError::InvalidCredentials)
        ));
    }
    // The failure that would lock until after the last representable time.
    assert!(matches!(
        svc.login_at(IP, "late@example.com", "bad", false, late),
        Err(AuthError::Internal)
    ));
}

#[test]
fn login_at_lockout_expires_after_window() {
    let mut svc = make_service(4);
    let now: i64 = 1_700_000_000_000;
    svc.register_at(IP, "t@example.com", "Str0ng!Pass", None, now).unwrap();
    for _ in 0..5 {
        assert!(matches!(
            svc.login_at(IP, "t@example.com", "bad", false, now),
            Err(AuthError::InvalidCredentials)
        ));
    }
    assert!(matches!(
        svc.login_at("10.0.0.2", "t@example.com", "Str0ng!Pass", false, now + 1),
        Err(AuthError::TooManyAttempts)
    ));
    let later = now + 15 * 60_000;
    assert!(svc.login_at("10.0.0.2", "t@example.com", "Str0ng!Pass", true, later).is_ok());
}

// ---- scenarios at the service level ----

fn registered(svc: &mut Service, email: &str) -> (u128, String) {
    let r = svc.register(IP, email, "Str0ng!Pass", None).unwrap();
    (r.user_id, r.signed_cookie_value)
}

#[test]
fn it_register_duplicate_email_case_insensitive() {
    let mut svc = make_service(4);
    svc.register(IP, "dup@example.com", "Str0ng!Pass", None).unwrap();
    let e = svc.register(IP, "DUP@EXAMPLE.COM", "Str0ng!Pass", None).unwrap_err();
    let resp = error_response(e);
    assert_eq!(resp.status, 409);
    assert_eq!(resp.error, "email_already_exists");
}

#[test]
fn it_register_email_normalized_to_lowercase() {
    let mut svc = make_service(4);
    let r = svc.register(IP, "MiXeD@Example.Com", "Str0ng!Pass", None).unwrap();
    assert_eq!(r.email, "mixed@example.com");
    assert_eq!(svc.get_email_by_user_id(r.user_id).as_deref(), Some("mixed@example.com"));
}

#[test]
fn it_login_wrong_password_and_nonexistent_same_error() {
    let mut svc = make_service(4);
    svc.register(IP, "same@example.com", "Str0ng!Pass", None).unwrap();
    let a = error_response(svc.login(IP, "same@example.com", "Wrong!Pass1", false).unwrap_err());
    let b = error_response(svc.login(IP, "ghost@example.com", "Wrong!Pass1", false).unwrap_err());
    assert_eq!(a.status, 401);
    assert_eq!((a.status, a.error, a.message), (b.status, b.error, b.message));
}

#[test]
fn it_login_rate_limit_is_per_email() {
    let mut svc = make_service(4);
    svc.register(IP, "one@example.com", "Str0ng!Pass", None).unwrap();
    svc.register(IP, "two@example.com", "Str0ng!Pass", None).unwrap();
    for _ in 0..5 {
        let _ = svc.login("10.1.1.1", "one@example.com", "wrong", false);
    }
    assert!(matches!(
        svc.login("10.1.1.1", "one@example.com", "Str0ng!Pass", false),
        Err(AuthError::TooManyAttempts)
    ));
    assert!(svc.login("10.1.1.1", "two@example.com", "Str0ng!Pass", false).is_ok());
}

#[test]
fn it_login_rate_limit_allows_correct_before_threshold() {
    let mut svc = make_service(4);
    svc.register(IP, "four@example.com", "Str0ng!Pass", None).unwrap();
    for _ in 0..4 {
        let _ = svc.login(IP, "four@example.com", "wrong", false);
    }
    assert!(svc.login(IP, "four@example.com", "Str0ng!Pass", false).is_ok());
    // Success resets the counter: four more failures still do not lock.
    for _ in 0..4 {
        let _ = svc.login(IP, "four@example.com", "wrong", false);
    }
    assert!(svc.login(IP, "four@example.com", "Str0ng!Pass", false).is_ok());
}

#[test]
fn it_logout_twice_second_fails() {
    let mut svc = make_service(4);
    let r = svc.register(IP, "twice@example.com", "Str0ng!Pass", None).unwrap();
    assert!(svc.logout(&r.session_id).is_ok());
    assert!(matches!(svc.logout(&r.session_id), Err(AuthError::Unauthenticated)));
}

#[test]
fn it_me_with_tampered_cookie_returns_401() {
    let mut svc = make_service(4);
    let (_, cookie) = registered(&mut svc, "tamper@example.com");
    let header = format!("sid={cookie}");
    assert!(session_id_from_cookie_header(&header, SECRET).is_some());
    let mut tampered = cookie.clone();
    let last = tampered.pop().unwrap();
    tampered.push(if last == '0' { '1' } else { '0' });
    let header = format!("sid={tampered}");
    assert!(session_id_from_cookie_header(&header, SECRET).is_none());
}

#[test]
fn it_me_after_login_returns_correct_user() {
    let mut svc = make_service(4);
    let (uid, _) = registered(&mut svc, "me@example.com");
    let r = svc.login(IP, "me@example.com", "Str0ng!Pass", false).unwrap();
    let header = format!("theme=dark; sid={}", r.signed_cookie_value);
    let sid = session_id_from_cookie_header(&header, svc.session_secret()).unwrap();
    let (id, email) = svc.get_user_by_session(&sid).unwrap();
    assert_eq!(id, uid);
    assert_eq!(email, "me@example.com");
}

#[test]
fn it_multiple_sessions_for_same_user() {
    let mut svc = make_service(4);
    let (uid, _) = registered(&mut svc, "multi@example.com");
    let a = svc.login(IP, "multi@example.com", "Str0ng!Pass", false).unwrap();
    let b = svc.login(IP, "multi@example.com", "Str0ng!Pass", true).unwrap();
    assert_ne!(a.session_id, b.session_id);
    svc.logout(&a.session_id).unwrap();
    assert!(svc.get_user_by_session(&a.session_id).is_err());
    assert_eq!(svc.get_user_by_session(&b.session_id).unwrap().0, uid);
}

#[test]
fn it_cookie_has_httponly_and_samesite() {
    let mut svc = make_service(4);
    let r = svc.register(IP, "cookie@example.com", "Str0ng!Pass", None).unwrap();
    let c = build_cookie(&r.signed_cookie_value, r.cookie_max_age, svc.cookie_secure());
    assert!(c.contains("HttpOnly"));
    assert!(c.contains("SameSite=Lax"));
    assert!(!c.contains("Secure;"));
    assert!(c.ends_with("Max-Age=7200"));
}

#[test]
fn it_register_with_nickname_returns_it() {
    let mut svc = make_service(4);
    let r = svc.register(IP, "nick@example.com", "Str0ng!Pass", Some("小明")).unwrap();
    assert_eq!(r.nickname, "小明");
}

#[test]
fn it_register_without_nickname_defaults_to_email_prefix() {
    let mut svc = make_service(4);
    let r = svc.register(IP, "prefix@example.com", "Str0ng!Pass", None).unwrap();
    assert_eq!(r.nickname, "prefix");
}

#[test]
fn it_register_whitespace_nickname_defaults_to_email_prefix() {
    let mut svc = make_service(4);
    let r = svc.register(IP, "blank@example.com", "Str0ng!Pass", Some("   ")).unwrap();
    assert_eq!(r.nickname, "blank");
}

#[test]
fn it_register_nickname_too_long_400() {
    let mut svc = make_service(4);
    let long = "a".repeat(21);
    let e = svc.register(IP, "long@example.com", "Str0ng!Pass", Some(&long)).unwrap_err();
    let resp = error_response(e);
    assert_eq!(resp.status, 400);
    assert_eq!(resp.error, "invalid_field");
    assert!(resp.message.contains("20"));
    // Nothing was stored.
    assert!(svc.register(IP, "long@example.com", "Str0ng!Pass", None).is_ok());
}

#[test]
fn it_register_nickname_control_chars_400() {
    let mut svc = make_service(4);
    let e = svc.register(IP, "ctl@example.com", "Str0ng!Pass", Some("bad\nname")).unwrap_err();
    let resp = error_response(e);
    assert_eq!(resp.error, "invalid_field");
    assert!(resp.message.contains("控制字符"));
}

#[test]
fn it_register_ip_rate_limit_429_after_20_from_same_ip() {
    let mut svc = make_service(4);
    for i in 0..20 {
        // Invalid emails are cheap and still count against the limit.
        let r = svc.register("9.9.9.9", &format!("bad{i}"), "Str0ng!Pass", None);
        assert!(matches!(r, Err(AuthError::InvalidEmail)));
    }
    let e = svc.register("9.9.9.9", "ok@example.com", "Str0ng!Pass", None).unwrap_err();
    let resp = error_response(e);
    assert_eq!(resp.status, 429);
    assert_eq!(resp.error, "too_many_attempts");
}

#[test]
fn it_register_ip_rate_limit_independent_per_ip() {
    let mut svc = make_service(4);
    for i in 0..20 {
        let _ = svc.register("9.9.9.9", &format!("bad{i}"), "Str0ng!Pass", None);
    }
    assert!(svc.register("8.8.8.8", "other@example.com", "Str0ng!Pass", None).is_ok());
}

#[test]
fn it_register_ip_rate_limit_does_not_leak_to_login() {
    let mut svc = make_service(4);
    svc.register("9.9.9.9", "leak@example.com", "Str0ng!Pass", None).unwrap();
    for i in 0..20 {
        let _ = svc.register("9.9.9.9", &format!("bad{i}"), "Str0ng!Pass", None);
    }
    assert!(svc.login("9.9.9.9", "leak@example.com", "Str0ng!Pass", false).is_ok());
}

#[test]
fn it_profile_partial_update_phone_keeps_nickname() {
    let mut svc = make_service(4);
    let (uid, _) = registered(&mut svc, "alice@example.com");
    let u = svc.update_profile(uid, None, Some("13800138000".into()), None).unwrap();
    assert_eq!(u.email, "alice@example.com");
    assert_eq!(u.nickname, "alice");
    assert_eq!(u.phone.as_deref(), Some("13800138000"));
    assert!(u.avatar.is_none());
}

#[test]
fn it_profile_update_all_fields() {
    let mut svc = make_service(4);
    let (uid, _) = registered(&mut svc, "dave@example.com");
    let u = svc
        .update_profile(
            uid,
            Some("Dave".into()),
            Some("13900139000".into()),
            Some("https://example.com/d.png".into()),
        )
        .unwrap();
    assert_eq!(u.nickname, "Dave");
    assert_eq!(u.phone.as_deref(), Some("13900139000"));
    assert_eq!(u.avatar.as_deref(), Some("https://example.com/d.png"));
    let stored = svc.get_user(uid).unwrap();
    assert_eq!(stored.nickname, "Dave");
}

#[test]
fn it_profile_empty_nickname_resets_to_email_prefix() {
    let mut svc = make_service(4);
    let (uid, _) = registered(&mut svc, "eve@example.com");
    svc.update_profile(uid, Some("EveCustom".into()), None, None).unwrap();
    let u = svc.update_profile(uid, Some("".into()), None, None).unwrap();
    assert_eq!(u.nickname, "eve");
}

#[test]
fn it_profile_empty_phone_clears_to_null() {
    let mut svc = make_service(4);
    let (uid, _) = registered(&mut svc, "grace@example.com");
    svc.update_profile(uid, None, Some("13800138000".into()), None).unwrap();
    let u = svc.update_profile(uid, None, Some("".into()), None).unwrap();
    assert!(u.phone.is_none());
}

#[test]
fn it_profile_empty_avatar_clears_to_null() {
    let mut svc = make_service(4);
    let (uid, _) = registered(&mut svc, "heidi@example.com");
    svc.update_profile(uid, None, None, Some("https://example.com/h.png".into())).unwrap();
    let u = svc.update_profile(uid, None, None, Some("".into())).unwrap();
    assert!(u.avatar.is_none());
}

#[test]
fn it_profile_invalid_phone_400() {
    let mut svc = make_service(4);
    let (uid, _) = registered(&mut svc, "ivan@example.com");
    let resp = error_response(svc.update_profile(uid, None, Some("12345".into()), None).unwrap_err());
    assert_eq!(resp.status, 400);
    assert_eq!(resp.error, "invalid_field");
    assert!(resp.message.contains("手机号"));
}

#[test]
fn it_profile_invalid_avatar_400() {
    let mut svc = make_service(4);
    let (uid, _) = registered(&mut svc, "karl@example.com");
    let resp = error_response(
        svc.update_profile(uid, None, None, Some("ftp://example.com/a.png".into())).unwrap_err(),
    );
    assert_eq!(resp.error, "invalid_field");
    assert!(resp.message.contains("http"));
}

#[test]
fn it_profile_invalid_field_does_not_apply_others() {
    let mut svc = make_service(4);
    let (uid, _) = registered(&mut svc, "oli@example.com");
    assert!(svc
        .update_profile(uid, Some("Oli".into()), Some("bad".into()), None)
        .is_err());
    let u = svc.get_user(uid).unwrap();
    assert_eq!(u.nickname, "oli");
    assert!(u.phone.is_none());
}

#[test]
fn it_profile_unauthenticated_401() {
    let mut svc = make_service(4);
    let e = svc.update_profile(12345, Some("X".into()), None, None).unwrap_err();
    assert!(matches!(e, AuthError::Unauthenticated));
    assert_eq!(error_response(e).status, 401);
}

#[test]
fn it_change_password_success_200() {
    let mut svc = make_service(4);
    let (uid, _) = registered(&mut svc, "cp@example.com");
    assert!(svc.change_password(uid, "Str0ng!Pass", "N3w!Secret").is_ok());
}

#[test]
fn it_change_password_wrong_old_400() {
    let mut svc = make_service(4);
    let (uid, _) = registered(&mut svc, "cpw@example.com");
    let e = svc.change_password(uid, "Wr0ng!Pass", "N3w!Secret").unwrap_err();
    let resp = error_response(e);
    assert_eq!(resp.status, 400);
    assert_eq!(resp.error, "invalid_old_password");
}

#[test]
fn it_change_password_weak_new_400() {
    let mut svc = make_service(4);
    let (uid, _) = registered(&mut svc, "cpweak@example.com");
    let e = svc.change_password(uid, "Str0ng!Pass", "weak").unwrap_err();
    assert!(matches!(e, AuthError::WeakPassword));
}

#[test]
fn it_change_password_old_password_invalid_after_change() {
    let mut svc = make_service(4);
    let (uid, _) = registered(&mut svc, "old@example.com");
    svc.change_password(uid, "Str0ng!Pass", "N3w!Secret").unwrap();
    assert!(matches!(
        svc.login(IP, "old@example.com", "Str0ng!Pass", false),
        Err(AuthError::InvalidCredentials)
    ));
}

#[test]
fn it_change_password_new_password_works_after_change() {
    let mut svc = make_service(4);
    let (uid, _) = registered(&mut svc, "new@example.com");
    svc.change_password(uid, "Str0ng!Pass", "N3w!Secret").unwrap();
    assert!(svc.login(IP, "new@example.com", "N3w!Secret", false).is_ok());
}

#[test]
fn it_change_password_existing_session_still_valid() {
    let mut svc = make_service(4);
    let r = svc.register(IP, "keep@example.com", "Str0ng!Pass", None).unwrap();
    svc.change_password(r.user_id, "Str0ng!Pass", "N3w!Secret").unwrap();
    assert_eq!(svc.get_user_by_session(&r.session_id).unwrap().0, r.user_id);
}

#[test]
fn it_change_password_unauthenticated_401() {
    let mut svc = make_service(4);
    let e = svc.change_password(777, "Str0ng!Pass", "N3w!Secret").unwrap_err();
    assert!(matches!(e, AuthError::Unauthenticated));
}

#[test]
fn error_response_codes() {
    let cases: Vec<(AuthError, u16, &str)> = vec![
        (AuthError::InvalidEmail, 400, "invalid_email"),
        (AuthError::WeakPassword, 400, "weak_password"),
        (AuthError::ValidationError, 400, "validation_error"),
        (AuthError::InvalidCredentials, 401, "invalid_credentials"),
        (AuthError::Unauthenticated, 401, "unauthenticated"),
        (AuthError::EmailAlreadyExists, 409, "email_already_exists"),
        (AuthError::TooManyAttempts, 429, "too_many_attempts"),
        (AuthError::IpRateLimited, 429, "too_many_attempts"),
        (AuthError::InvalidOldPassword, 400, "invalid_old_password"),
        (AuthError::Internal, 500, "internal_error"),
    ];
    for (e, status, code) in cases {
        let r = error_response(e);
        assert_eq!(r.status, status);
        assert_eq!(r.error, code);
    }
    let r = error_response(AuthError::InvalidField("昵称不能为空".to_string()));
    assert_eq!((r.status, r.error.as_str(), r.message.as_str()), (400, "invalid_field", "昵称不能为空"));
    assert_eq!(
        error_response(AuthError::TooManyAttempts).message,
        "登录尝试次数过多，请 15 分钟后再试"
    );
}
