use user_service::middleware::auth::{extract_sid_cookie, session_id_from_cookie_header};
use user_service::routes::auth::build_cookie;
use user_service::utils::session_id::generate_session_id;
use user_service::utils::signed_cookie::{sign, verify_and_extract};

const SECRET: &str = "test-secret-key-that-is-long-enough!!";

#[test]
fn sign_then_verify() {
    let signed = sign("abc123", SECRET);
    let extracted = verify_and_extract(&signed, SECRET).unwrap();
    assert_eq!(extracted, "abc123");
}

#[test]
fn tampered_signature_rejected() {
    let signed = sign("abc123", SECRET);
    // Flip a character in the signature portion.
    let mut tampered = signed.clone();
    let last = tampered.chars().last().unwrap();
    let replacement = if last == 'a' { 'b' } else { 'a' };
    tampered.pop();
    tampered.push(replacement);
    assert!(verify_and_extract(&tampered, SECRET).is_none());
}

#[test]
fn wrong_secret_rejected() {
    let signed = sign("abc123", SECRET);
    assert!(verify_and_extract(&signed, "wrong-secret-key-also-long-enough!").is_none());
}

#[test]
fn missing_dot_returns_none() {
    assert!(verify_and_extract("noseparator", SECRET).is_none());
}

#[test]
fn signed_value_is_id_dot_hmac_hex() {
    let signed = sign("abc123", SECRET);
    let (sid, sig) = signed.split_once('.').unwrap();
    assert_eq!(sid, "abc123");
    assert_eq!(sig.len(), 64);
    assert!(sig.chars().all(|c| c.is_ascii_hexdigit() && !c.is_ascii_uppercase()));
    // the tag depends on the secret
    assert_ne!(sign("abc123", "another-secret-that-is-long-enough!!"), signed);
    // an uppercase rendering of the tag is still accepted
    let upper = format!("{}.{}", sid, sig.to_uppercase());
    assert_eq!(verify_and_extract(&upper, SECRET), Some("abc123".to_string()));
    // a truncated or non-hex tag is rejected
    assert!(verify_and_extract(&format!("{}.{}", sid, &sig[..62]), SECRET).is_none());
    assert!(verify_and_extract(&format!("{}.zz{}", sid, &sig[2..]), SECRET).is_none());
    assert!(verify_and_extract("abc123.", SECRET).is_none());
}

#[test]
fn extract_sid() {
    assert_eq!(
        extract_sid_cookie("sid=abc.123; other=xyz"),
        Some("abc.123".into())
    );
    assert_eq!(
        extract_sid_cookie("foo=bar; sid=hello.world"),
        Some("hello.world".into())
    );
    assert_eq!(extract_sid_cookie("no cookies here"), None);
    assert_eq!(extract_sid_cookie(""), None);
}

#[test]
fn extract_sid_edge_cases() {
    assert_eq!(extract_sid_cookie("sid="), Some(String::new()));
    assert_eq!(extract_sid_cookie("  sid=x  ;y=1"), Some("x".into()));
    assert_eq!(extract_sid_cookie("a=1;;sid=v;"), Some("v".into()));
    assert_eq!(extract_sid_cookie("xsid=1; sid=2"), Some("2".into()));
    assert_eq!(extract_sid_cookie("SID=1"), None);
    assert_eq!(extract_sid_cookie("sid=first; sid=second"), Some("first".into()));
}

#[test]
fn cookie_header_round_trip() {
    let sid = generate_session_id();
    assert_eq!(sid.len(), 64);
    assert!(sid.chars().all(|c| c.is_ascii_digit() || ('a'..='f').contains(&c)));
    let header = format!("theme=dark; sid={}", sign(&sid, SECRET));
    assert_eq!(session_id_from_cookie_header(&header, SECRET), Some(sid.clone()));
    assert_eq!(session_id_from_cookie_header(&header, "other-secret-that-is-long-enough!!!"), None);
    assert_eq!(session_id_from_cookie_header("sid=invalid.nohmac", SECRET), None);
    assert_eq!(session_id_from_cookie_header("theme=dark", SECRET), None);
    assert_ne!(generate_session_id(), sid);
}

#[test]
fn build_cookie_secure() {
    let c = build_cookie("abc.123", 7200, true);
    assert!(c.contains("sid=abc.123"));
    assert!(c.contains("HttpOnly"));
    assert!(c.contains("Secure"));
    assert!(c.contains("SameSite=Lax"));
    assert!(c.contains("Path=/"));
    assert!(c.contains("Max-Age=7200"));
}

#[test]
fn build_cookie_insecure() {
    let c = build_cookie("abc.123", 7200, false);
    assert!(c.contains("sid=abc.123"));
    assert!(!c.contains("Secure"));
}

#[test]
fn build_cookie_clear() {
    let c = build_cookie("", 0, true);
    assert!(c.contains("sid=;"));
    assert!(c.contains("Max-Age=0"));
}

#[test]
fn build_cookie_exact_text() {
    assert_eq!(
        build_cookie("v", 604_800, true),
        "sid=v; HttpOnly; Secure; SameSite=Lax; Path=/; Max-Age=604800"
    );
    assert_eq!(
        build_cookie("v", 18_446_744_073_709_551_615, false),
        "sid=v; HttpOnly; SameSite=Lax; Path=/; Max-Age=18446744073709551615"
    );
}
