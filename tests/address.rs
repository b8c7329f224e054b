use deno_cron::decimal::{parse_u32, parse_u64};
use deno_cron::{parse_control_address, ControlAddr, CronError, Transports};

const ALL: Transports = Transports { unix: true, vsock: true };
const TCP_ONLY: Transports = Transports { unix: false, vsock: false };

fn parse(spec: &str) -> Result<Option<ControlAddr>, CronError> {
    parse_control_address(Some(spec), ALL)
}

#[test]
fn tcp_address() {
    match parse("tcp:127.0.0.1:9090") {
        Ok(Some(ControlAddr::Tcp(a))) => assert_eq!(a, "127.0.0.1:9090"),
        other => panic!("{other:?}"),
    }
    match parse("tcp:[::1]:80") {
        Ok(Some(ControlAddr::Tcp(a))) => assert_eq!(a, "[::1]:80"),
        other => panic!("{other:?}"),
    }
}

#[test]
fn unset_specification_is_unconfigured() {
    assert!(matches!(parse_control_address(None, ALL), Ok(None)));
}

#[test]
fn malformed_tcp_address_is_an_error() {
    assert!(matches!(parse("tcp:not-an-address"), Err(CronError::InvalidSockAddr)));
    assert!(matches!(parse("tcp:127.0.0.1"), Err(CronError::InvalidSockAddr)));
    assert!(matches!(parse("tcp:"), Err(CronError::InvalidSockAddr)));
}

#[test]
fn vsock_wildcard_cid() {
    match parse("vsock:-1:50") {
        Ok(Some(ControlAddr::Vsock { cid, port })) => {
            assert_eq!(cid, u32::MAX);
            assert_eq!(port, 50);
        }
        other => panic!("{other:?}"),
    }
}

#[test]
fn vsock_numeric_cid() {
    match parse("vsock:3:+1024") {
        Ok(Some(ControlAddr::Vsock { cid, port })) => {
            assert_eq!(cid, 3);
            assert_eq!(port, 1024);
        }
        other => panic!("{other:?}"),
    }
}

#[test]
fn vsock_bad_numbers() {
    assert!(matches!(parse("vsock:x:50"), Err(CronError::InvalidSockAddr)));
    assert!(matches!(parse("vsock:-2:50"), Err(CronError::InvalidSockAddr)));
    assert!(matches!(parse("vsock:3:4294967296"), Err(CronError::InvalidSockAddr)));
    assert!(matches!(parse("vsock:3:"), Err(CronError::InvalidSockAddr)));
}

#[test]
fn vsock_without_port_separator() {
    match parse("vsock:50") {
        Err(CronError::Io(e)) => assert_eq!(e.kind(), std::io::ErrorKind::InvalidInput),
        other => panic!("{other:?}"),
    }
}

#[test]
fn no_colon_is_unconfigured() {
    assert!(matches!(parse("garbage-no-colon"), Ok(None)));
    assert!(matches!(parse(""), Ok(None)));
}

#[test]
fn unknown_tag_is_unconfigured() {
    assert!(matches!(parse("udp:127.0.0.1:9090"), Ok(None)));
    assert!(matches!(parse("TCP:127.0.0.1:9090"), Ok(None)));
    assert!(matches!(parse(":127.0.0.1:9090"), Ok(None)));
}

#[test]
fn unix_path() {
    match parse("unix:/tmp/test.sock") {
        Ok(Some(ControlAddr::Unix(p))) => assert_eq!(p, "/tmp/test.sock"),
        other => panic!("{other:?}"),
    }
}

#[test]
fn transports_the_platform_lacks_are_unconfigured() {
    assert!(matches!(
        parse_control_address(Some("unix:/tmp/test.sock"), TCP_ONLY),
        Ok(None)
    ));
    assert!(matches!(parse_control_address(Some("vsock:-1:50"), TCP_ONLY), Ok(None)));
    assert!(matches!(parse_control_address(Some("vsock:50"), TCP_ONLY), Ok(None)));
    assert!(matches!(
        parse_control_address(Some("tcp:127.0.0.1:9090"), TCP_ONLY),
        Ok(Some(ControlAddr::Tcp(_)))
    ));
}

#[test]
fn non_ascii_address_text() {
    match parse("unix:/tmp/é:ü.sock") {
        Ok(Some(ControlAddr::Unix(p))) => assert_eq!(p, "/tmp/é:ü.sock"),
        other => panic!("{other:?}"),
    }
}

#[test]
fn decimal_numbers() {
    assert_eq!(parse_u32("4294967295"), Some(u32::MAX));
    assert_eq!(parse_u32("4294967296"), None);
    assert_eq!(parse_u32("007"), Some(7));
    assert_eq!(parse_u64("99999999999"), Some(99_999_999_999));
    assert_eq!(parse_u64("9a"), None);
}
