use ntfyclip::config::{parse_u64, resolve_config, ConfigError, DEFAULT_IDLE_TIMEOUT};

fn b(s: &str) -> Vec<u8> {
    s.as_bytes().to_vec()
}

#[test]
fn parse_u64_plain_digits() {
    assert_eq!(parse_u64(b"123"), Some(123));
    assert_eq!(parse_u64(b"0"), Some(0));
    assert_eq!(parse_u64(b"042"), Some(42));
}

#[test]
fn parse_u64_leading_plus_sign() {
    assert_eq!(parse_u64(b"+7"), Some(7));
    assert_eq!(parse_u64(b"+"), None);
}

#[test]
fn parse_u64_rejects_junk() {
    assert_eq!(parse_u64(b""), None);
    assert_eq!(parse_u64(b"12a"), None);
    assert_eq!(parse_u64(b"-3"), None);
    assert_eq!(parse_u64(b" 5"), None);
}

#[test]
fn parse_u64_bounds() {
    assert_eq!(parse_u64(b"18446744073709551615"), Some(u64::MAX));
    assert_eq!(parse_u64(b"18446744073709551616"), None);
}

#[test]
fn missing_topic_is_fatal() {
    let r = resolve_config(None, None, None, None, None);
    assert!(matches!(r, Err(ConfigError::MissingTopic)));
}

#[test]
fn empty_topic_is_fatal() {
    let r = resolve_config(None, None, Some(Vec::new()), None, None);
    assert!(matches!(r, Err(ConfigError::MissingTopic)));
}

#[test]
fn defaults_apply_when_only_topic_is_given() {
    let c = resolve_config(None, None, Some(b("alerts")), None, None).expect("topic given");
    assert_eq!(c.server, b("ntfy.sh"));
    assert_eq!(c.scheme, b("wss"));
    assert_eq!(c.topic, b("alerts"));
    assert_eq!(c.token, Vec::<u8>::new());
    assert_eq!(c.idle_timeout, DEFAULT_IDLE_TIMEOUT);
    assert_eq!(c.idle_timeout, 120);
}

#[test]
fn given_values_are_kept() {
    let c = resolve_config(
        Some(b("example.org")),
        Some(b("ws")),
        Some(b("t")),
        Some(b("secret")),
        Some(b("30")),
    )
    .expect("topic given");
    assert_eq!(c.server, b("example.org"));
    assert_eq!(c.scheme, b("ws"));
    assert_eq!(c.token, b("secret"));
    assert_eq!(c.idle_timeout, 30);
}

#[test]
fn zero_timeout_falls_back_to_default() {
    let c = resolve_config(None, None, Some(b("t")), None, Some(b("0"))).expect("topic given");
    assert_eq!(c.idle_timeout, 120);
}

#[test]
fn unparseable_timeout_falls_back_to_default() {
    let c = resolve_config(None, None, Some(b("t")), None, Some(b("soon"))).expect("topic given");
    assert_eq!(c.idle_timeout, 120);
}
