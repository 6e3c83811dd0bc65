//! The supervisor's retry policy: perpetual availability of a session
//! despite arbitrary transient failures.
//!
//! The driver runs the loop itself — connect, run the session to its end,
//! ask [`next_attempt`] how long to cool down, sleep, repeat — and the policy
//! here decides the cooldown: a fixed pause after any failure, none after a
//! clean close. There is no retry bound and no backoff; the contract of the
//! process is to always try to be subscribed.

use vstd::prelude::*;
use crate::session::{Outcome, OutcomeV};

verus! {

/// Fixed cooldown, in seconds, before the attempt that follows a failure.
pub const RETRY_COOLDOWN_SECS: u64 = 5;

/// How one session attempt ended, as the supervisor sees it.
#[derive(Debug, PartialEq, Eq)]
pub enum SessionEnd {
    /// The WebSocket handshake itself failed, with its cause.
    ConnectFailed(String),
    /// The session ran and reached a terminal outcome.
    Ended(Outcome),
}

pub ghost enum SessionEndV {
    ConnectFailed(Seq<char>),
    Ended(OutcomeV),
}

impl View for SessionEnd {
    type V = SessionEndV;

    open spec fn view(&self) -> SessionEndV {
        match self {
            SessionEnd::ConnectFailed(c) => SessionEndV::ConnectFailed(c@),
            SessionEnd::Ended(o) => SessionEndV::Ended(o@),
        }
    }
}

/// A clean ending: the peer closed the session; everything else is a failure.
pub open spec fn is_clean(e: SessionEndV) -> bool {
    e matches SessionEndV::Ended(OutcomeV::ClosedByPeer)
}

/// The cooldown the supervisor applies before its next attempt.
pub open spec fn spec_cooldown(e: SessionEndV) -> u64 {
    if is_clean(e) {
        0
    } else {
        RETRY_COOLDOWN_SECS
    }
}

/// Decides the pause before the next connection attempt. The supervisor
/// always makes another attempt; only its delay depends on how the last one
/// ended.
pub fn next_attempt(end: &SessionEnd) -> (d: u64)
    ensures
        d == spec_cooldown(end@),
        (d == 0) <==> is_clean(end@),
        d > 0 ==> d == RETRY_COOLDOWN_SECS,
{
    match end {
        SessionEnd::Ended(Outcome::ClosedByPeer) => 0,
        _ => RETRY_COOLDOWN_SECS,
    }
}

/// Connection attempts the supervisor has started once the given endings have
/// all been seen: the first attempt, and one more after every ending.
pub open spec fn spec_attempts(ends: Seq<SessionEndV>) -> nat
    decreases ends.len(),
{
    if ends.len() == 0 {
        1
    } else {
        1 + spec_attempts(ends.drop_first())
    }
}

/// The cooldown preceding each attempt after the first.
pub open spec fn spec_delays(ends: Seq<SessionEndV>) -> Seq<u64> {
    ends.map_values(|e: SessionEndV| spec_cooldown(e))
}

/// Supervisor perpetuity: after any run of endings — any mix of connect
/// failures, transport errors, idle timeouts, protocol errors and clean
/// closes — the supervisor has started one attempt more than there were
/// endings, so a run of N failures is followed by an (N+1)-th attempt; a
/// nonzero cooldown precedes an attempt exactly when the ending before it was
/// a failure, and a retry after a clean close waits not at all.
pub proof fn lemma_supervisor_perpetuity(ends: Seq<SessionEndV>)
    ensures
        spec_attempts(ends) == ends.len() + 1,
        spec_delays(ends).len() == ends.len(),
        forall|i: int|
            0 <= i < ends.len() ==> ((spec_delays(ends)[i] > 0) <==> !is_clean(ends[i])),
        forall|i: int|
            0 <= i < ends.len() && !is_clean(ends[i]) ==> spec_delays(ends)[i]
                == RETRY_COOLDOWN_SECS,
    decreases ends.len(),
{
    if ends.len() > 0 {
        lemma_supervisor_perpetuity(ends.drop_first());
    }
}

} // verus!
