use vireon::config::{parse_addr, ReconnectPolicy};
use vireon::time::Duration;

#[test]
fn parses_host_port() {
    assert_eq!(parse_addr("1.2.3.4:4433"), ("1.2.3.4".into(), 4433));
    assert_eq!(parse_addr("example.com:8443"), ("example.com".into(), 8443));
}

#[test]
fn bare_host_defaults_port() {
    assert_eq!(parse_addr("example.com"), ("example.com".into(), 4433));
    assert_eq!(parse_addr(""), ("127.0.0.1".into(), 4433));
}

#[test]
fn parses_ipv6_bracketed() {
    assert_eq!(parse_addr("[::1]:4433"), ("[::1]".into(), 4433));
    // Bracketed without port: default port.
    assert_eq!(parse_addr("[fe80::1]"), ("[fe80::1]".into(), 4433));
}

#[test]
fn backoff_clamps() {
    let p = ReconnectPolicy::default();
    assert_eq!(p.backoff_for(0), Duration::from_millis(500));
    // Exponential growth, then clamped at max_backoff.
    assert!(!p.backoff_for(20).exceeds(&p.max_backoff));
}

#[test]
fn addresses_without_a_valid_port() {
    assert_eq!(parse_addr("host:"), ("host:".into(), 4433));
    assert_eq!(parse_addr("host:65536"), ("host:65536".into(), 4433));
    assert_eq!(parse_addr("host:65535"), ("host".into(), 65535));
    assert_eq!(parse_addr("host:+80"), ("host".into(), 80));
    assert_eq!(parse_addr("host:+"), ("host:+".into(), 4433));
    assert_eq!(parse_addr("host:00080"), ("host".into(), 80));
    assert_eq!(parse_addr("a:b:7"), ("a:b".into(), 7));
    assert_eq!(parse_addr("[::1]x"), ("[::1]".into(), 4433));
    assert_eq!(parse_addr("[::1]:x"), ("[::1]".into(), 4433));
    assert_eq!(parse_addr("[::1:7"), ("[::1".into(), 7));
}
