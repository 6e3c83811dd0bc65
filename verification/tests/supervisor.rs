use ntfyclip::session::Outcome;
use ntfyclip::supervisor::{next_attempt, SessionEnd, RETRY_COOLDOWN_SECS};

#[test]
fn clean_close_retries_without_delay() {
    let d = next_attempt(&SessionEnd::Ended(Outcome::ClosedByPeer));
    assert_eq!(d, 0);
}

#[test]
fn connect_failure_waits_the_fixed_cooldown() {
    let d = next_attempt(&SessionEnd::ConnectFailed(String::from("refused")));
    assert_eq!(d, RETRY_COOLDOWN_SECS);
    assert_eq!(d, 5);
}

#[test]
fn transport_error_waits_the_fixed_cooldown() {
    let d = next_attempt(&SessionEnd::Ended(Outcome::TransportError(String::from("reset"))));
    assert_eq!(d, 5);
}

#[test]
fn idle_timeout_waits_the_fixed_cooldown() {
    let d = next_attempt(&SessionEnd::Ended(Outcome::IdleTimeoutError));
    assert_eq!(d, 5);
}

#[test]
fn protocol_error_waits_the_fixed_cooldown() {
    let d = next_attempt(&SessionEnd::Ended(Outcome::ProtocolError(String::from("bad"))));
    assert_eq!(d, 5);
}
