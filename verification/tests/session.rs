use ntfyclip::session::{InboundEvent, Outcome, Session, Step};

fn b(s: &str) -> Vec<u8> {
    s.as_bytes().to_vec()
}

fn session() -> Session {
    Session::new(b("alerts"), 5, 100)
}

#[test]
fn matching_data_frame_dispatches_once() {
    let mut s = session();
    let body = b(r#"{"event":"message","topic":"alerts","message":"build failed"}"#);
    let step = s.handle_frame(InboundEvent::DataFrame(body), 101);
    match step {
        Step::Continue { dispatch, pong } => {
            assert_eq!(dispatch, Some(b("build failed")));
            assert_eq!(pong, None);
        }
        Step::Stop(_) => panic!("session must keep running"),
    }
    assert_eq!(s.last_traffic_at, 101);
}

#[test]
fn non_matching_data_frame_dispatches_nothing() {
    let mut s = session();
    let body = b(r#"{"event":"message","topic":"other","message":"x"}"#);
    let step = s.handle_frame(InboundEvent::DataFrame(body), 101);
    assert!(matches!(step, Step::Continue { dispatch: None, pong: None }));
}

#[test]
fn malformed_data_frame_keeps_the_session_running() {
    let mut s = session();
    let step = s.handle_frame(InboundEvent::DataFrame(b("not json")), 103);
    assert!(matches!(step, Step::Continue { dispatch: None, pong: None }));
    assert_eq!(s.last_traffic_at, 103);
    assert_eq!(s.handle_tick(104), None);
}

#[test]
fn ping_echoes_payload_in_exactly_one_pong() {
    let mut s = session();
    let step = s.handle_frame(InboundEvent::ControlPing(vec![1, 2, 3]), 104);
    match step {
        Step::Continue { dispatch, pong } => {
            assert_eq!(dispatch, None);
            assert_eq!(pong, Some(vec![1, 2, 3]));
        }
        Step::Stop(_) => panic!("session must keep running"),
    }
    assert_eq!(s.last_traffic_at, 104);
}

#[test]
fn ping_alone_staves_off_the_idle_timeout() {
    let mut s = session();
    s.handle_frame(InboundEvent::ControlPing(Vec::new()), 104);
    assert_eq!(s.handle_tick(109), None);
    assert!(matches!(s.handle_tick(110), Some(Outcome::IdleTimeoutError)));
}

#[test]
fn pong_only_refreshes_recency() {
    let mut s = session();
    let step = s.handle_frame(InboundEvent::ControlPong, 102);
    assert!(matches!(step, Step::Continue { dispatch: None, pong: None }));
    assert_eq!(s.last_traffic_at, 102);
}

#[test]
fn close_ends_the_session_cleanly() {
    let mut s = session();
    let step = s.handle_frame(InboundEvent::ControlClose, 102);
    assert!(matches!(step, Step::Stop(Outcome::ClosedByPeer)));
}

#[test]
fn protocol_error_is_terminal_with_its_cause() {
    let mut s = session();
    let step = s.handle_frame(InboundEvent::ProtocolError(String::from("bad frame")), 102);
    match step {
        Step::Stop(Outcome::ProtocolError(cause)) => assert_eq!(cause, "bad frame"),
        _ => panic!("a malformed frame must end the session"),
    }
}

#[test]
fn idle_timeout_fires_after_a_full_interval_and_never_earlier() {
    let s = session();
    assert_eq!(s.handle_tick(100), None);
    assert_eq!(s.handle_tick(103), None);
    assert_eq!(s.handle_tick(105), None);
    assert!(matches!(s.handle_tick(106), Some(Outcome::IdleTimeoutError)));
    assert!(matches!(s.handle_tick(1000), Some(Outcome::IdleTimeoutError)));
}
