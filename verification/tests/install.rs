//! A daemon's identity and its unit files.

use unixd::install::{
    agent, check_socket_path, exec_line, plist_path, quote, service_unit, socket_unit, unit_dir,
    Platform,
};
use unixd::single_flight::flight_result;
use unixd::text::decimal;
use unixd::{FlightError, InstallError, Service, Version};

const V1: Version = Version { major: 1, minor: 0 };

#[test]
fn the_label_carries_the_major() {
    let service = Service::new("unixd", Version { major: 12, minor: 3 });
    assert_eq!(service.label(), "unixd-v12");
    assert_eq!(decimal(0), "0");
    assert_eq!(decimal(65_535), "65535");
}

#[test]
fn the_socket_lives_under_the_runtime_directory() {
    let service = Service::new("unixd", V1);
    assert_eq!(
        service.socket_path(Platform::Linux, Some("/run/user/1000")).unwrap(),
        "/run/user/1000/unixd/unixd-v1.sock"
    );
    assert_eq!(
        service.socket_path(Platform::MacOs, Some("/Users/me")).unwrap(),
        "/Users/me/Library/Application Support/unixd/unixd-v1.sock"
    );
    assert!(matches!(
        service.socket_path(Platform::Linux, Some("relative")),
        Err(InstallError::NoBaseDirectory("XDG_RUNTIME_DIR"))
    ));
    assert!(matches!(
        service.socket_path(Platform::MacOs, None),
        Err(InstallError::NoBaseDirectory("HOME"))
    ));
}

#[test]
fn a_socket_path_over_the_limit_is_refused_before_any_write() {
    let path = format!("/{}", "a".repeat(120));
    let result = check_socket_path(Platform::Linux, &path);
    assert!(
        matches!(result, Err(InstallError::SocketPathTooLong { limit: 107, .. })),
        "{result:?}"
    );
    assert!(check_socket_path(Platform::Linux, &"a".repeat(107)).is_ok());
    assert!(check_socket_path(Platform::MacOs, &"a".repeat(104)).is_err());
}

#[test]
fn exec_words_are_quoted_the_way_systemd_reads_them() {
    assert_eq!(quote(r#"a\b"c%d$e f"#), r#""a\\b\"c%%d$$e f""#);
    assert_eq!(
        exec_line("/usr/bin/d", &vec!["--x".to_owned(), "a b".to_owned()]),
        r#""/usr/bin/d" "--x" "a b""#
    );
}

#[test]
fn the_units_name_the_socket_and_the_program() {
    assert_eq!(
        socket_unit("d-v1", "/run/d.sock"),
        "[Unit]\nDescription=d-v1 socket\n\n[Socket]\nListenStream=/run/d.sock\nSocketMode=0600\nDirectoryMode=0700\nAccept=no\nTriggerLimitIntervalSec=2\nTriggerLimitBurst=200\n\n[Install]\nWantedBy=sockets.target\n"
    );
    assert_eq!(
        service_unit("d-v1", "\"/bin/d\""),
        "[Unit]\nDescription=d-v1\nRequires=d-v1.socket\nStartLimitIntervalSec=10\nStartLimitBurst=100\n\n[Service]\nExecStart=\"/bin/d\"\nStandardInput=socket\nStandardOutput=journal\nStandardError=journal\n"
    );
    assert_eq!(
        unit_dir(None, Some("/home/me")).unwrap(),
        "/home/me/.config/systemd/user"
    );
    assert_eq!(unit_dir(Some("/cfg"), Some("/home/me")).unwrap(), "/cfg/systemd/user");
    assert!(unit_dir(Some("cfg"), None).is_err());
}

#[test]
fn the_launch_agent_listens_on_the_socket() {
    let service = Service::new("d", V1);
    assert_eq!(
        plist_path(&service, Some("/Users/me")).unwrap(),
        "/Users/me/Library/LaunchAgents/d-v1.plist"
    );
    let agent = agent(&service, "/s.sock", "/bin/d", &vec!["serve".to_owned()]);
    assert_eq!(agent.label, "d-v1");
    assert_eq!(agent.program_arguments, vec!["/bin/d".to_owned(), "serve".to_owned()]);
    assert_eq!(agent.socket_mode, 0o600);
    assert!(agent.wait);
    assert_eq!(agent.throttle_interval, 1);
}

#[test]
fn every_caller_gets_the_shared_failure() {
    let failed: Result<u8, FlightError<&str>> = flight_result(Some(Err("timeout")));
    assert!(matches!(&failed, Err(FlightError::Failed(e)) if **e == "timeout"));
    let copy = failed.clone();
    assert!(matches!(copy, Err(FlightError::Failed(e)) if *e == "timeout"));
    assert!(matches!(flight_result::<u8, &str>(None), Err(FlightError::Panicked)));
    assert_eq!(flight_result::<u8, &str>(Some(Ok(3))).unwrap(), 3);
}
