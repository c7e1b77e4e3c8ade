//! The transport's rules: limits, reply checks, frames, and faults.

use std::time::Duration;

use unixd::client::{left, listener_trusted, FrameReader, ReadStep};
use unixd::install::Platform;
use unixd::config::ConfigError;
use unixd::server::{invalid_request_fault, outcome_of, peer_allowed, version_fault};
use unixd::{Client, ClientError, Fault, Limits, Outcome, Response, Version};

const V1: Version = Version { major: 1, minor: 0 };

#[test]
fn transport_limits_read_from_a_config_with_defaults_for_the_rest() {
    let limits = Limits::from_config(r#"{"read_timeout": "2s"}"#).unwrap();
    assert_eq!(Duration::from_millis(limits.read_timeout_ms), Duration::from_secs(2));
    assert_eq!(limits.max_frame_bytes, Limits::default().max_frame_bytes);
    assert!(Limits::from_config(r#"{"read_timeuot": "2s"}"#).is_err());
}

#[test]
fn config_errors_name_the_field() {
    assert!(matches!(
        Limits::from_config(r#"{"read_timeuot": "2s"}"#),
        Err(ConfigError::UnknownField(name)) if name == "read_timeuot"
    ));
    assert!(matches!(
        Limits::from_config(r#"{"read_timeout": 2}"#),
        Err(ConfigError::InvalidValue(name)) if name == "read_timeout"
    ));
    assert!(matches!(
        Limits::from_config(r#"{"read_timeout": "soon"}"#),
        Err(ConfigError::InvalidValue(_))
    ));
    assert!(matches!(Limits::from_config("[1]"), Err(ConfigError::NotAnObject)));
    assert_eq!(Limits::from_config("{}").unwrap(), Limits::default());
    let limits = Limits::from_config(r#"{"max_frame_bytes": 64, "write_timeout": "1m 30s"}"#)
        .unwrap();
    assert_eq!(limits.max_frame_bytes, 64);
    assert_eq!(limits.write_timeout_ms, 90_000);
    assert_eq!(Limits::default().read_timeout_ms, 10_000);
    assert_eq!(Limits::default().max_frame_bytes, 16 * 1024 * 1024);
}

#[test]
fn a_client_starts_with_the_default_limits_and_five_seconds() {
    let client = Client::new("/run/d.sock", V1);
    assert_eq!(client.socket(), "/run/d.sock");
    assert_eq!(client.deadline_ms(), 5_000);
    assert_eq!(client.max_frame_bytes(), Limits::default().max_frame_bytes);
    let client = client
        .with_deadline(30_000)
        .with_limits(Limits { max_frame_bytes: 30, ..Limits::default() });
    assert_eq!(client.deadline_ms(), 30_000);
    assert_eq!(client.max_frame_bytes(), 30);
    assert!(client.request_fits(30));
    assert!(!client.request_fits(31));
    assert_eq!(client.version(), V1);
}

fn response(id: &str, major: u16, outcome: Outcome<String>) -> Response<String> {
    Response { v: Version { major, minor: 3 }, id: id.to_owned(), outcome }
}

#[test]
fn a_reply_to_another_request_is_invalid() {
    let client = Client::new("/run/d.sock", V1);
    let result = client.accept("mine", response("other", 1, Outcome::Reply("hello".to_owned())));
    assert!(matches!(result, Err(ClientError::InvalidFrame)), "{result:?}");
    let result = client.accept("mine", response("mine", 1, Outcome::Reply("hello".to_owned())));
    assert_eq!(result.unwrap(), "hello");
    let result = client.accept("mine", response("mine", 2, Outcome::Reply("hello".to_owned())));
    assert!(matches!(result, Err(ClientError::InvalidFrame)));
    let fault = Fault {
        code: "not_found".to_owned(),
        message: "no such thing".to_owned(),
        retryable: false,
        details: Some(r#"{"status":404}"#.to_owned()),
    };
    let result = client.accept("mine", response("mine", 2, Outcome::Fault(fault.clone())));
    assert!(matches!(result, Err(ClientError::Remote(f)) if f == fault));
}

#[test]
fn the_deadline_leaves_what_is_left() {
    assert_eq!(left(1_000, 400).unwrap(), 600);
    assert!(matches!(left(1_000, 1_000), Err(ClientError::Timeout)));
    assert!(matches!(left(1_000, 2_000), Err(ClientError::Timeout)));
}

#[test]
fn a_reply_over_the_cap_is_refused_in_one_pass() {
    let mut reader = FrameReader::new(30);
    let step = reader.push(&[b'x'; 40]);
    assert!(matches!(step, ReadStep::TooLarge));
    let mut reader = FrameReader::new(30);
    let mut long = vec![b'x'; 30];
    long.push(b'\n');
    assert!(matches!(reader.push(&long), ReadStep::TooLarge));
}

#[test]
fn a_reply_frame_ends_at_its_first_newline() {
    let mut reader = FrameReader::new(64);
    assert!(matches!(reader.push(b"{\"ok\""), ReadStep::More));
    match reader.push(b":1}\nrest\n") {
        ReadStep::Done(line) => assert_eq!(line, b"{\"ok\":1}".to_vec()),
        other => panic!("expected a frame, got {other:?}"),
    }
    let mut reader = FrameReader::new(4);
    match reader.push(b"abc\n") {
        ReadStep::Done(line) => assert_eq!(line, b"abc".to_vec()),
        other => panic!("expected a frame, got {other:?}"),
    }
    let reader = FrameReader::new(4);
    assert!(matches!(reader.eof(), ClientError::Closed));
    let mut reader = FrameReader::new(8);
    assert!(matches!(reader.push(b"ab"), ReadStep::More));
    assert!(matches!(reader.eof(), ClientError::InvalidFrame));
}

#[test]
fn another_major_version_is_refused() {
    let fault = version_fault(V1, Version { major: 2, minor: 0 }).unwrap();
    assert_eq!(fault.code, "unsupported_version");
    assert_eq!(fault.message, "this server speaks major version 1, not 2");
    assert!(!fault.retryable);
    assert_eq!(
        fault.details.as_deref(),
        Some(r#"{"requested_major":2,"supported_major":1}"#)
    );
    assert!(version_fault(V1, Version { major: 1, minor: 9 }).is_none());
}

#[test]
fn a_body_the_handler_cannot_decode_is_an_invalid_request() {
    let fault = invalid_request_fault();
    assert_eq!(fault.code, "invalid_request");
    assert!(!fault.retryable);
    assert_eq!(fault.details, None);
    assert_eq!(outcome_of::<u8>(None), Outcome::Fault(fault));
    assert_eq!(outcome_of::<u8>(Some(Ok(7))), Outcome::Reply(7));
}

#[test]
fn another_users_connection_is_not_served() {
    assert!(peer_allowed(Some(501), 501));
    assert!(!peer_allowed(Some(502), 501));
    assert!(!peer_allowed(None, 501));
}

#[test]
fn only_the_own_user_or_launchd_root_is_trusted_to_listen() {
    assert!(listener_trusted(Platform::Linux, 501, 501));
    assert!(!listener_trusted(Platform::Linux, 0, 501));
    assert!(!listener_trusted(Platform::Linux, 502, 501));
    assert!(listener_trusted(Platform::MacOs, 0, 501));
    assert!(listener_trusted(Platform::MacOs, 501, 501));
    assert!(!listener_trusted(Platform::MacOs, 502, 501));
}

#[test]
fn a_request_the_stream_ends_without_a_newline_is_still_read() {
    let mut frame = FrameReader::new(64);
    assert!(FrameReader::new(64).rest().is_none());
    assert!(matches!(frame.push(b"{\"v\":"), ReadStep::More));
    assert_eq!(frame.rest(), Some(b"{\"v\":".to_vec()));
}

#[test]
fn an_absolute_name_stands_for_itself() {
    assert_eq!(unixd::cache::join("/root", "/etc/x"), "/etc/x");
    assert_eq!(unixd::cache::join("/root", "x"), "/root/x");
    assert_eq!(unixd::cache::join("/root/", "x"), "/root/x");
    assert_eq!(unixd::cache::join("", "x"), "x");
}
