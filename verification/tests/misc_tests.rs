use rtc_gateway::config::Config;
use rtc_gateway::error::ServerError;
use rtc_gateway::helpers::{elapsed, format_fingerprint};

#[test]
fn it_computes_elapsed_seconds() {
    assert_eq!(elapsed(Some(5), Some(7)), Some(2));
    assert_eq!(elapsed(Some(5), Some(5)), Some(0));
}

#[test]
fn it_returns_none_for_a_stop_before_the_start() {
    assert_eq!(elapsed(Some(7), Some(5)), None);
}

#[test]
fn it_returns_none_for_missing_endpoints() {
    assert_eq!(elapsed(None, Some(5)), None);
    assert_eq!(elapsed(Some(5), None), None);
    assert_eq!(elapsed(None, None), None);
}

#[test]
fn it_carries_a_config() {
    let config = Config {
        host: "123".to_string(),
        port: "50051".to_string(),
        statsd_host: "127.0.0.1".to_string(),
        statsd_port: "8125".to_string(),
    };
    assert_eq!(config.host, "123".to_string());
    assert_eq!(config.port, "50051".to_string());
}

#[test]
fn it_distinguishes_server_errors() {
    let a = ServerError::InvalidSessionError("s1".to_string());
    let b = ServerError::InvalidStateError("Only a created session can be started".to_string());
    assert_ne!(a, b);
    assert_eq!(a, ServerError::InvalidSessionError("s1".to_string()));
    assert!(matches!(b, ServerError::InvalidStateError(_)));
}

#[test]
fn it_formats_a_fingerprint_as_colon_separated_hex() {
    assert_eq!(format_fingerprint(&vec![0xAB, 0x00, 0x0F]), b"AB:00:0F".to_vec());
    assert_eq!(format_fingerprint(&vec![0x5C]), b"5C".to_vec());
    assert_eq!(format_fingerprint(&Vec::new()), Vec::<u8>::new());
}
