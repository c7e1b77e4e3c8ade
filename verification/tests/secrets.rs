//! When secrets leave memory.

use std::time::Duration;

use unixd::secrets::{Lifetime, SecretTable};
use unixd::SecretLimits;

#[test]
fn secrets_limits_read_from_a_config_with_defaults_for_the_rest() {
    let limits = SecretLimits::from_config(r#"{"idle": "5m"}"#).unwrap();
    assert_eq!(Duration::from_millis(limits.idle_ms), Duration::from_mins(5));
    assert_eq!(Duration::from_millis(limits.max_age_ms), Duration::from_hours(2));
    assert!(SecretLimits::from_config(r#"{"idel": "5m"}"#).is_err());
}

#[test]
fn an_unread_secret_expires_after_the_idle_lifetime() {
    let lifetime = Lifetime::new(1_000, 10, 0);
    assert!(!lifetime.expired(1_009));
    assert!(lifetime.expired(1_010));
}

#[test]
fn a_secret_read_often_still_expires_at_its_maximum_age() {
    let mut table = SecretTable::new();
    table.put("token".to_owned(), "s3cret", Lifetime::new(0, 10, 23));
    for now in [5, 10, 15, 20] {
        assert!(table.read("token", now));
    }
    assert_eq!(table.value("token"), Some(&"s3cret"));
    assert!(!table.read("token", 23));
    assert_eq!(table.value("token"), None);
}

#[test]
fn a_secret_without_bounds_stays() {
    let mut table = SecretTable::new();
    table.put("token".to_owned(), "s3cret", Lifetime::new(0, 0, 0));
    assert!(table.read("token", 24 * 3_600_000));
    assert!(table.read("token", u64::MAX));
}

#[test]
fn removed_and_swept_secrets_are_gone() {
    let mut table = SecretTable::new();
    table.put("removed".to_owned(), 1u8, Lifetime::new(0, 0, 0));
    table.put("swept".to_owned(), 2u8, Lifetime::new(0, 12, 0));
    table.put("kept".to_owned(), 3u8, Lifetime::new(0, 0, 0));
    table.remove("removed");
    assert_eq!(table.value("removed"), None);
    table.sweep(12);
    assert_eq!(table.value("swept"), None);
    assert_eq!(table.value("kept"), Some(&3));
    assert_eq!(table.len(), 1);
    table.put("kept".to_owned(), 4u8, Lifetime::new(0, 0, 0));
    assert_eq!(table.value("kept"), Some(&4));
    assert_eq!(table.len(), 1);
    table.clear();
    assert_eq!(table.len(), 0);
}

#[test]
fn secret_limits_default_to_ten_minutes_two_hours_and_a_minute() {
    let limits = SecretLimits::default();
    assert_eq!(limits.idle_ms, 600_000);
    assert_eq!(limits.max_age_ms, 7_200_000);
    assert_eq!(limits.sweep_every_ms, 60_000);
}
