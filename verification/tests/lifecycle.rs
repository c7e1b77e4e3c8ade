//! When the daemon exits.

use std::time::Duration;

use unixd::serve::{Connections, Event, Step};
use unixd::Lifecycle;

#[test]
fn lifecycle_reads_from_a_config_with_defaults_for_the_rest() {
    let lifecycle = Lifecycle::from_config(r#"{"idle_timeout": "0s"}"#).unwrap();
    assert_eq!(Duration::from_millis(lifecycle.idle_timeout_ms), Duration::ZERO);
    assert_eq!(lifecycle.drain_timeout_ms, Lifecycle::default().drain_timeout_ms);
}

#[test]
fn the_idle_timer_waits_for_open_requests() {
    let lifecycle = Lifecycle::default();
    assert_eq!(lifecycle.idle_timeout_ms, 600_000);
    let mut connections = Connections::new();
    assert!(lifecycle.idle_armed(connections.open));
    assert_eq!(connections.step(Event::Accepted), Step::Continue);
    assert!(!lifecycle.idle_armed(connections.open));
    assert_eq!(connections.step(Event::Closed), Step::Continue);
    assert!(lifecycle.idle_armed(connections.open));
    let off = Lifecycle { idle_timeout_ms: 0, ..lifecycle };
    assert!(!off.idle_armed(0));
}

#[test]
fn signals_shutdowns_and_idleness_drain() {
    let mut connections = Connections::new();
    assert_eq!(connections.step(Event::Aborted), Step::Continue);
    for event in [Event::IdleElapsed, Event::ShutdownRequested, Event::Signal] {
        assert_eq!(connections.step(event), Step::Drain { failed: false });
    }
    assert_eq!(connections.step(Event::AcceptFailed), Step::Drain { failed: true });
}

#[test]
fn a_sub_millisecond_timeout_stays_on() {
    let lifecycle = Lifecycle::from_config(r#"{"idle_timeout": "500us", "drain_timeout": "0s"}"#).unwrap();
    assert_eq!(lifecycle.idle_timeout_ms, 1);
    assert_eq!(lifecycle.drain_timeout_ms, 0);
    let lifecycle = Lifecycle::from_config(r#"{"idle_timeout": "1.5ms"}"#).unwrap();
    assert_eq!(lifecycle.idle_timeout_ms, 1);
}

#[test]
fn a_duration_that_could_overflow_is_refused_without_a_panic() {
    let text = r#"{"idle_timeout": "18446744073709551615s 1000000000ns"}"#;
    assert_eq!(
        Lifecycle::from_config(text),
        Err(unixd::config::ConfigError::InvalidValue("idle_timeout".to_owned()))
    );
    let lifecycle = Lifecycle::from_config(r#"{"idle_timeout": "1000000000000ns"}"#).unwrap();
    assert_eq!(lifecycle.idle_timeout_ms, 1_000_000);
    let lifecycle = Lifecycle::from_config(r#"{"idle_timeout": "1000000000s 500ms"}"#).unwrap();
    assert_eq!(lifecycle.idle_timeout_ms, 1_000_000_000_500);
}
