//! What each error says to a person, and the clock the cache reads.

use std::io;

use unixd::clock::{Clock, SystemClock};
use unixd::error::Error;
use unixd::{ClientError, Fault, InstallError};

#[test]
fn cache_errors_name_no_path() {
    assert_eq!(Error::UnsafeRoot.describe(), "cache root is not a private directory");
    assert_eq!(Error::Io(io::ErrorKind::NotFound).describe(), "cache I/O failed: entity not found");
    assert_eq!(Error::Lock.describe(), "cache lock could not be taken");
    assert_eq!(Error::DuplicateKeyPart("query".to_owned()).describe(), "key part `query` given twice");
    assert_eq!(
        Error::ForbiddenKeyPart("api_key".to_owned()).describe(),
        "key part `api_key` names a credential, an output, or a request"
    );
    assert_eq!(Error::Encode.describe(), "value could not be serialized");
}

#[test]
fn client_errors_say_what_went_wrong() {
    assert_eq!(ClientError::Unavailable.describe(), "no daemon is listening");
    assert_eq!(ClientError::Timeout.describe(), "the daemon did not answer in time");
    assert_eq!(ClientError::PeerMismatch.describe(), "the daemon runs as another user");
    assert_eq!(ClientError::FrameTooLarge.describe(), "a frame is larger than the cap");
    assert_eq!(ClientError::Encode.describe(), "the request could not be serialized");
    assert_eq!(ClientError::Closed.describe(), "the daemon closed the connection");
    assert_eq!(ClientError::InvalidFrame.describe(), "the daemon sent an invalid response");
    let fault = Fault {
        code: "upstream_down".to_owned(),
        message: "the upstream did not answer".to_owned(),
        retryable: true,
        details: None,
    };
    assert_eq!(ClientError::Remote(fault).describe(), "upstream_down: the upstream did not answer");
    let error = io::Error::new(io::ErrorKind::BrokenPipe, "pipe gone");
    assert_eq!(ClientError::Io(error).describe(), "socket error: pipe gone");
}

#[test]
fn install_errors_say_what_went_wrong() {
    assert_eq!(
        InstallError::NoBaseDirectory("HOME").describe(),
        "HOME is unset or not an absolute path"
    );
    assert_eq!(InstallError::NotUnicode("prog\u{fffd}".to_owned()).describe(), "prog\u{fffd} is not UTF-8");
    assert_eq!(
        InstallError::SocketPathTooLong { path: "/run/x.sock".to_owned(), limit: 107 }.describe(),
        "the socket path /run/x.sock is longer than 107 bytes"
    );
    assert_eq!(
        InstallError::Command { command: "systemctl --user daemon-reload".to_owned(), stderr: "no bus".to_owned() }
            .describe(),
        "systemctl --user daemon-reload failed: no bus"
    );
    assert_eq!(InstallError::Io(io::Error::other("disk full")).describe(), "unit file error: disk full");
}

#[test]
fn the_system_clock_is_past_the_epoch() {
    let first = SystemClock.now_ms();
    let second = SystemClock.now_ms();
    assert!(first > 1_600_000_000_000);
    assert!(second >= first);
}
