use ntfyclip::envelope::{parse_envelope, route_text};

fn b(s: &str) -> Vec<u8> {
    s.as_bytes().to_vec()
}

#[test]
fn scenario_matching_topic_dispatches_exactly_the_message() {
    let body = b(r#"{"event":"message","topic":"alerts","message":"build failed"}"#);
    let r = route_text(&body, &b("alerts"));
    assert_eq!(r, Some(b("build failed")));
}

#[test]
fn scenario_other_topic_is_never_dispatched() {
    let body = b(r#"{"event":"message","topic":"other","message":"x"}"#);
    assert_eq!(route_text(&body, &b("alerts")), None);
}

#[test]
fn topic_filter_ignores_event_kind() {
    let body = b(r#"{"event":"open","topic":"other","message":"x"}"#);
    assert_eq!(route_text(&body, &b("alerts")), None);
}

#[test]
fn event_filter_drops_non_message_events() {
    let body = b(r#"{"event":"open","topic":"alerts","message":"x"}"#);
    assert_eq!(route_text(&body, &b("alerts")), None);
}

#[test]
fn dispatch_fidelity_literal_text() {
    let body = b(r#"{"event":"message","topic":"t","message":"hello"}"#);
    assert_eq!(route_text(&body, &b("t")), Some(b("hello")));
}

#[test]
fn absent_message_is_not_dispatched() {
    let body = b(r#"{"event":"message","topic":"alerts"}"#);
    let env = parse_envelope(&body).expect("well-formed envelope");
    assert_eq!(env.message, None);
    assert_eq!(route_text(&body, &b("alerts")), None);
}

#[test]
fn null_message_is_not_dispatched() {
    let body = b(r#"{"event":"message","topic":"alerts","message":null}"#);
    let env = parse_envelope(&body).expect("well-formed envelope");
    assert_eq!(env.message, None);
    assert_eq!(route_text(&body, &b("alerts")), None);
}

#[test]
fn invalid_json_is_malformed() {
    assert!(parse_envelope(&b("not json")).is_none());
    assert!(parse_envelope(&b("")).is_none());
    assert!(parse_envelope(&b("{")).is_none());
    assert!(parse_envelope(&b(r#"{"event":"message","topic":"t""#)).is_none());
}

#[test]
fn missing_required_fields_are_malformed() {
    assert!(parse_envelope(&b(r#"{"topic":"t","message":"m"}"#)).is_none());
    assert!(parse_envelope(&b(r#"{"event":"message","message":"m"}"#)).is_none());
    assert!(parse_envelope(&b(r#"{}"#)).is_none());
}

#[test]
fn wrongly_typed_fields_are_malformed() {
    assert!(parse_envelope(&b(r#"{"event":1,"topic":"t"}"#)).is_none());
    assert!(parse_envelope(&b(r#"{"event":"message","topic":null}"#)).is_none());
    assert!(parse_envelope(&b(r#"{"event":"message","topic":"t","message":7}"#)).is_none());
}

#[test]
fn duplicate_known_field_is_malformed() {
    let body = b(r#"{"event":"message","event":"message","topic":"t"}"#);
    assert!(parse_envelope(&body).is_none());
    let body = b(r#"{"event":"message","topic":"t","message":null,"message":"m"}"#);
    assert!(parse_envelope(&body).is_none());
}

#[test]
fn trailing_garbage_is_malformed() {
    let body = b(r#"{"event":"message","topic":"t"} extra"#);
    assert!(parse_envelope(&body).is_none());
}

#[test]
fn unknown_fields_of_any_shape_are_ignored() {
    let body = b(
        r#" { "id" : "abc" , "time" : -1.5e+3 , "tags" : [ "a" , { "x" : [ 1 , true , null ] } ] ,
            "event" : "message" , "topic" : "alerts" , "message" : "ok" , "extra" : { } } "#,
    );
    assert_eq!(route_text(&body, &b("alerts")), Some(b("ok")));
}

#[test]
fn duplicate_unknown_fields_are_ignored() {
    let body = b(r#"{"x":1,"x":2,"event":"message","topic":"t","message":"m"}"#);
    assert_eq!(route_text(&body, &b("t")), Some(b("m")));
}

#[test]
fn simple_escapes_decode() {
    let body = b(r#"{"event":"message","topic":"t","message":"a\n\t\"\\\/b"}"#);
    assert_eq!(route_text(&body, &b("t")), Some(b("a\n\t\"\\/b")));
}

#[test]
fn unicode_escapes_decode() {
    let body = b(r#"{"event":"message","topic":"t","message":"\u0041\u00e9\u20ac"}"#);
    assert_eq!(route_text(&body, &b("t")), Some(b("A\u{e9}\u{20ac}")));
}

#[test]
fn surrogate_pair_escapes_decode() {
    let body = b(r#"{"event":"message","topic":"t","message":"\ud83d\ude00"}"#);
    assert_eq!(route_text(&body, &b("t")), Some(b("\u{1f600}")));
}

#[test]
fn lone_surrogate_escape_is_malformed() {
    assert!(parse_envelope(&b(r#"{"event":"message","topic":"t","message":"\ud83d"}"#)).is_none());
    assert!(parse_envelope(&b(r#"{"event":"message","topic":"t","message":"\ude00"}"#)).is_none());
}

#[test]
fn escaped_key_matches_decoded_name() {
    let body = b(r#"{"ev\u0065nt":"message","topic":"t","message":"m"}"#);
    assert_eq!(route_text(&body, &b("t")), Some(b("m")));
}

#[test]
fn escaped_key_also_counts_toward_duplicates() {
    let body = b(r#"{"topic":"t","top\u0069c":"t","event":"message"}"#);
    assert!(parse_envelope(&body).is_none());
}

#[test]
fn control_character_in_string_is_malformed() {
    let mut body = b(r#"{"event":"message","topic":"t","message":"a"#);
    body.push(0x01);
    body.extend_from_slice(b"\"}");
    assert!(parse_envelope(&body).is_none());
}

#[test]
fn leading_zero_number_is_malformed() {
    assert!(parse_envelope(&b(r#"{"n":01,"event":"message","topic":"t"}"#)).is_none());
}

#[test]
fn literals_and_numbers_skip_correctly() {
    let body = b(r#"{"a":true,"b":false,"c":null,"d":0,"e":-0.5,"f":1e9,"event":"message","topic":"t","message":"m"}"#);
    assert_eq!(route_text(&body, &b("t")), Some(b("m")));
}

#[test]
fn deeply_nested_unknown_value_within_limit_is_ignored() {
    let mut body = b(r#"{"deep":"#);
    for _ in 0..100 {
        body.push(b'[');
    }
    for _ in 0..100 {
        body.push(b']');
    }
    body.extend_from_slice(br#","event":"message","topic":"t","message":"m"}"#);
    assert_eq!(route_text(&body, &b("t")), Some(b("m")));
}

#[test]
fn nesting_beyond_the_limit_is_malformed() {
    let mut body = b(r#"{"deep":"#);
    for _ in 0..200 {
        body.push(b'[');
    }
    for _ in 0..200 {
        body.push(b']');
    }
    body.extend_from_slice(br#","event":"message","topic":"t","message":"m"}"#);
    assert!(parse_envelope(&body).is_none());
}

#[test]
fn parsed_fields_are_the_decoded_text() {
    let body = b(r#"{"event":"message","topic":"alerts","message":"hi"}"#);
    let env = parse_envelope(&body).expect("well-formed envelope");
    assert_eq!(env.event, b("message"));
    assert_eq!(env.topic, b("alerts"));
    assert_eq!(env.message, Some(b("hi")));
}
