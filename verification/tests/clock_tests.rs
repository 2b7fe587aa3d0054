use user_service::utils::clock::{MAX_TIMESTAMP_MS, MIN_TIMESTAMP_MS};

#[test]
fn timestamp_bounds_match_chrono() {
    assert_eq!(
        chrono::DateTime::<chrono::Utc>::MIN_UTC.timestamp_millis(),
        MIN_TIMESTAMP_MS
    );
    assert_eq!(
        chrono::DateTime::<chrono::Utc>::MAX_UTC.timestamp_millis(),
        MAX_TIMESTAMP_MS
    );
}
