//! The session state machine: one live WebSocket connection's protocol-level
//! behaviour, driven from outside by inbound frames and watchdog ticks.
//!
//! The transport itself stays outside the library. The driver decodes each
//! inbound frame into an [`InboundEvent`] and calls [`Session::handle_frame`];
//! a periodic watchdog calls [`Session::handle_tick`]. Each call returns what
//! the driver must do next: dispatch a message to the Sink, reply with a
//! pong, keep going, or tear the connection down with a terminal outcome.
//! Time is a monotonic count of elapsed seconds supplied by the driver.

use vstd::prelude::*;
use crate::envelope::{spec_route, spec_parse_envelope, route_text, EnvelopeView, event_message};

verus! {

/// One inbound WebSocket frame, decoded to what the state machine consumes.
#[derive(Debug, PartialEq, Eq)]
pub enum InboundEvent {
    /// A text data frame: the raw UTF-8 bytes of its JSON body.
    DataFrame(Vec<u8>),
    /// A ping control frame with its payload.
    ControlPing(Vec<u8>),
    /// A pong control frame.
    ControlPong,
    /// A close control frame.
    ControlClose,
    /// A frame the transport could not read as any of the above.
    ProtocolError(String),
}

/// Terminal result of a session.
#[derive(Debug, PartialEq, Eq)]
pub enum Outcome {
    /// The peer closed the connection; the only successful ending.
    ClosedByPeer,
    /// A mid-session send or receive failure, with its cause.
    TransportError(String),
    /// The liveness watchdog fired with no recent traffic.
    IdleTimeoutError,
    /// A malformed frame at the transport level, with its cause.
    ProtocolError(String),
}

/// What the driver must do after handing the machine one event.
#[derive(Debug, PartialEq, Eq)]
pub enum Step {
    /// Keep the session running; dispatch `dispatch` to the Sink and reply
    /// with a pong carrying `pong`, where present.
    Continue { dispatch: Option<Vec<u8>>, pong: Option<Vec<u8>> },
    /// Tear the connection down and report the outcome.
    Stop(Outcome),
}

/// The mutable state of one live session.
pub struct Session {
    /// The configured topic; only envelopes naming it are dispatched.
    pub topic: Vec<u8>,
    /// Maximum tolerated gap, in seconds, since the last inbound frame.
    pub idle_timeout: u64,
    /// When the last inbound frame of any kind arrived.
    pub last_traffic_at: u64,
}

pub ghost enum EventV {
    DataFrame(Seq<u8>),
    ControlPing(Seq<u8>),
    ControlPong,
    ControlClose,
    ProtocolError(Seq<char>),
}

pub ghost enum OutcomeV {
    ClosedByPeer,
    TransportError(Seq<char>),
    IdleTimeoutError,
    ProtocolError(Seq<char>),
}

pub ghost enum StepV {
    Continue { dispatch: Option<Seq<u8>>, pong: Option<Seq<u8>> },
    Stop(OutcomeV),
}

pub ghost struct SessionV {
    pub topic: Seq<u8>,
    pub idle_timeout: int,
    pub last_traffic_at: int,
}

impl View for InboundEvent {
    type V = EventV;

    open spec fn view(&self) -> EventV {
        match self {
            InboundEvent::DataFrame(t) => EventV::DataFrame(t@),
            InboundEvent::ControlPing(p) => EventV::ControlPing(p@),
            InboundEvent::ControlPong => EventV::ControlPong,
            InboundEvent::ControlClose => EventV::ControlClose,
            InboundEvent::ProtocolError(c) => EventV::ProtocolError(c@),
        }
    }
}

impl View for Outcome {
    type V = OutcomeV;

    open spec fn view(&self) -> OutcomeV {
        match self {
            Outcome::ClosedByPeer => OutcomeV::ClosedByPeer,
            Outcome::TransportError(c) => OutcomeV::TransportError(c@),
            Outcome::IdleTimeoutError => OutcomeV::IdleTimeoutError,
            Outcome::ProtocolError(c) => OutcomeV::ProtocolError(c@),
        }
    }
}

impl View for Step {
    type V = StepV;

    open spec fn view(&self) -> StepV {
        match self {
            Step::Continue { dispatch, pong } => StepV::Continue {
                dispatch: match dispatch {
                    Some(d) => Some(d@),
                    None => None,
                },
                pong: match pong {
                    Some(p) => Some(p@),
                    None => None,
                },
            },
            Step::Stop(o) => StepV::Stop(o@),
        }
    }
}

impl View for Session {
    type V = SessionV;

    open spec fn view(&self) -> SessionV {
        SessionV {
            topic: self.topic@,
            idle_timeout: self.idle_timeout as int,
            last_traffic_at: self.last_traffic_at as int,
        }
    }
}

impl SessionV {
    pub open spec fn wf(self) -> bool {
        self.topic.len() > 0 && self.idle_timeout > 0
    }
}

/// One transition of the session state machine on an inbound frame: the new
/// state and what the driver must do. Every frame of any kind refreshes
/// traffic recency; only a matching data frame dispatches; only a ping
/// produces a pong, echoing its payload; a close ends the session cleanly; a
/// malformed frame ends it with a protocol error.
pub open spec fn spec_handle_frame(s: SessionV, ev: EventV, now: int) -> (SessionV, StepV) {
    match ev {
        EventV::DataFrame(text) => (
            SessionV { last_traffic_at: now, ..s },
            StepV::Continue { dispatch: spec_route(text, s.topic), pong: None },
        ),
        EventV::ControlPing(p) => (
            SessionV { last_traffic_at: now, ..s },
            StepV::Continue { dispatch: None, pong: Some(p) },
        ),
        EventV::ControlPong => (
            SessionV { last_traffic_at: now, ..s },
            StepV::Continue { dispatch: None, pong: None },
        ),
        EventV::ControlClose => (s, StepV::Stop(OutcomeV::ClosedByPeer)),
        EventV::ProtocolError(cause) => (s, StepV::Stop(OutcomeV::ProtocolError(cause))),
    }
}

/// One fire of the watchdog: terminal exactly when more than a full idle
/// interval has passed since the last inbound frame. The watchdog reads the
/// state and never changes it.
pub open spec fn spec_handle_tick(s: SessionV, now: int) -> Option<OutcomeV> {
    if now - s.last_traffic_at > s.idle_timeout {
        Some(OutcomeV::IdleTimeoutError)
    } else {
        None
    }
}

impl Session {
    pub open spec fn wf(&self) -> bool {
        self@.wf()
    }

    /// A session that just connected: traffic recency starts at `now`.
    pub fn new(topic: Vec<u8>, idle_timeout: u64, now: u64) -> (s: Session)
        requires
            topic@.len() > 0,
            idle_timeout > 0,
        ensures
            s@ == (SessionV {
                topic: topic@,
                idle_timeout: idle_timeout as int,
                last_traffic_at: now as int,
            }),
            s.wf(),
    {
        Session { topic, idle_timeout, last_traffic_at: now }
    }

    /// Feeds one inbound frame to the machine.
    pub fn handle_frame(&mut self, ev: InboundEvent, now: u64) -> (r: Step)
        ensures
            (final(self)@, r@) == spec_handle_frame(old(self)@, ev@, now as int),
            final(self).topic@ == old(self).topic@,
            final(self).idle_timeout == old(self).idle_timeout,
            old(self).wf() ==> final(self).wf(),
    {
        match ev {
            InboundEvent::DataFrame(text) => {
                self.last_traffic_at = now;
                let dispatch = route_text(text.as_slice(), self.topic.as_slice());
                Step::Continue { dispatch, pong: None }
            }
            InboundEvent::ControlPing(p) => {
                self.last_traffic_at = now;
                Step::Continue { dispatch: None, pong: Some(p) }
            }
            InboundEvent::ControlPong => {
                self.last_traffic_at = now;
                Step::Continue { dispatch: None, pong: None }
            }
            InboundEvent::ControlClose => Step::Stop(Outcome::ClosedByPeer),
            InboundEvent::ProtocolError(cause) => Step::Stop(Outcome::ProtocolError(cause)),
        }
    }

    /// One fire of the watchdog. Time is monotonic, so `now` is never before
    /// the last recorded traffic.
    pub fn handle_tick(&self, now: u64) -> (r: Option<Outcome>)
        requires
            now >= self.last_traffic_at,
        ensures
            match r {
                Some(o) => spec_handle_tick(self@, now as int) == Some(o@),
                None => spec_handle_tick(self@, now as int) is None,
            },
    {
        if now - self.last_traffic_at > self.idle_timeout {
            Some(Outcome::IdleTimeoutError)
        } else {
            None
        }
    }
}

/// Topic filter: an envelope for any topic other than the configured one is
/// never dispatched to the Sink, whatever its event kind.
pub proof fn lemma_topic_filter(text: Seq<u8>, topic: Seq<u8>)
    requires
        spec_parse_envelope(text) matches Some(env) && env.topic != topic,
    ensures
        spec_route(text, topic) is None,
{
}

/// Event filter: an envelope for the configured topic whose event kind is not
/// `message` is never dispatched to the Sink.
pub proof fn lemma_event_filter(text: Seq<u8>, topic: Seq<u8>)
    requires
        spec_parse_envelope(text) matches Some(env) && env.event != event_message(),
    ensures
        spec_route(text, topic) is None,
{
}

/// Dispatch fidelity: a body that decodes to an envelope with event kind
/// `message`, the configured topic, and a present message yields exactly that
/// message text, and the machine's one step on the frame carries it as the
/// single dispatch.
pub proof fn lemma_dispatch_fidelity(s: SessionV, text: Seq<u8>, m: Seq<u8>, now: int)
    requires
        spec_parse_envelope(text) == Some(
            EnvelopeView { event: event_message(), topic: s.topic, message: Some(m) },
        ),
    ensures
        spec_route(text, s.topic) == Some(m),
        spec_handle_frame(s, EventV::DataFrame(text), now).1 == (StepV::Continue {
            dispatch: Some(m),
            pong: None,
        }),
{
}

/// Ping liveness: one ping produces exactly one pong, echoing the ping's
/// payload, and refreshes traffic recency, so that no watchdog fire within a
/// full idle interval of the ping terminates the session, even with no data
/// frame in between.
pub proof fn lemma_ping_pong(s: SessionV, p: Seq<u8>, now: int, later: int)
    ensures
        spec_handle_frame(s, EventV::ControlPing(p), now).1 == (StepV::Continue {
            dispatch: None,
            pong: Some(p),
        }),
        spec_handle_frame(s, EventV::ControlPing(p), now).0 == (SessionV {
            last_traffic_at: now,
            ..s
        }),
        later - now <= s.idle_timeout ==> spec_handle_tick(
            spec_handle_frame(s, EventV::ControlPing(p), now).0,
            later,
        ) is None,
{
}

/// Idle timeout: while no frame of any kind arrives the state never changes,
/// so every watchdog fire within a full idle interval of the last traffic is
/// a no-op, and any fire after more than a full interval terminates the
/// session with the idle-timeout outcome — never earlier.
pub proof fn lemma_idle_timeout(s: SessionV, quiet: Seq<int>, t: int)
    requires
        forall|i: int| 0 <= i < quiet.len() ==> quiet[i] - s.last_traffic_at <= s.idle_timeout,
        t - s.last_traffic_at > s.idle_timeout,
    ensures
        forall|i: int| 0 <= i < quiet.len() ==> spec_handle_tick(s, quiet[i]) is None,
        spec_handle_tick(s, t) == Some(OutcomeV::IdleTimeoutError),
{
}

/// Malformed payload resilience: a data frame whose body does not decode
/// dispatches nothing, leaves the session running, and still counts as
/// traffic.
pub proof fn lemma_malformed_resilience(s: SessionV, text: Seq<u8>, now: int)
    requires
        spec_parse_envelope(text) is None,
    ensures
        spec_handle_frame(s, EventV::DataFrame(text), now) == (
            SessionV { last_traffic_at: now, ..s },
            StepV::Continue { dispatch: None, pong: None },
        ),
{
}

} // verus!
