use ntfyclip::config::resolve_config;
use ntfyclip::connect::{build_target, connect_plan, ConnectError};

fn b(s: &str) -> Vec<u8> {
    s.as_bytes().to_vec()
}

#[test]
fn target_is_scheme_server_topic_ws() {
    let c = resolve_config(None, None, Some(b("alerts")), None, None).expect("topic given");
    assert_eq!(build_target(&c), b("wss://ntfy.sh/alerts/ws"));
}

#[test]
fn plan_for_defaults_has_no_auth() {
    let c = resolve_config(None, None, Some(b("alerts")), None, None).expect("topic given");
    let p = connect_plan(&c).expect("the default target is a valid URL");
    assert_eq!(p.target, b("wss://ntfy.sh/alerts/ws"));
    assert_eq!(p.auth, None);
}

#[test]
fn plan_with_token_carries_the_bearer_header() {
    let c = resolve_config(None, None, Some(b("t")), Some(b("secret")), None)
        .expect("topic given");
    let p = connect_plan(&c).expect("valid URL and token");
    assert_eq!(p.auth, Some(b("Bearer secret")));
}

#[test]
fn unparseable_target_is_rejected_before_dialling() {
    // a scheme may not start with a digit, so the built target is no URL
    let c = resolve_config(None, Some(b("1ws")), Some(b("t")), None, None).expect("topic given");
    assert!(matches!(connect_plan(&c), Err(ConnectError::InvalidUrl)));
}

#[test]
fn control_bytes_in_the_token_are_rejected() {
    let c = resolve_config(None, None, Some(b("t")), Some(b("bad\ntoken")), None)
        .expect("topic given");
    assert!(matches!(connect_plan(&c), Err(ConnectError::InvalidToken)));
}
