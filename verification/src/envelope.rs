//! The notification envelope: the decoded JSON body of an inbound data frame,
//! and the decision whether it is dispatched to the Sink.
//!
//! An envelope is a JSON object with a string field `event`, a string field
//! `topic`, and an optional field `message` that is a string or null. Fields
//! beyond these are ignored; a duplicate of a known field, a known field of
//! the wrong type, or a missing required field makes the whole body
//! malformed. A malformed body is discarded by the caller, never fatal.

use vstd::prelude::*;
use crate::json::{
    spec_skip_ws, spec_string_body, sp_value, skip_ws, parse_string_body, skip_value,
};

verus! {

/// Mathematical model of a decoded envelope.
pub ghost struct EnvelopeView {
    pub event: Seq<u8>,
    pub topic: Seq<u8>,
    /// `None` both when the field is absent and when it is null.
    pub message: Option<Seq<u8>>,
}

/// A decoded envelope; text fields are UTF-8 bytes.
pub struct Envelope {
    pub event: Vec<u8>,
    pub topic: Vec<u8>,
    pub message: Option<Vec<u8>>,
}

impl View for Envelope {
    type V = EnvelopeView;

    open spec fn view(&self) -> EnvelopeView {
        EnvelopeView {
            event: self.event@,
            topic: self.topic@,
            message: match self.message {
                Some(m) => Some(m@),
                None => None,
            },
        }
    }
}

/// The bytes of `event`.
pub open spec fn key_event() -> Seq<u8> {
    seq![101u8, 118, 101, 110, 116]
}

/// The bytes of `topic`.
pub open spec fn key_topic() -> Seq<u8> {
    seq![116u8, 111, 112, 105, 99]
}

/// The bytes of `message`.
pub open spec fn key_message() -> Seq<u8> {
    seq![109u8, 101, 115, 115, 97, 103, 101]
}

/// Fields gathered while walking the members of the envelope object.
pub ghost struct FieldAcc {
    pub event: Option<Seq<u8>>,
    pub topic: Option<Seq<u8>>,
    /// Whether a `message` member was seen at all, so a duplicate is caught
    /// even when the first occurrence was null.
    pub msg_seen: bool,
    pub message: Option<Seq<u8>>,
}

pub open spec fn empty_acc() -> FieldAcc {
    FieldAcc { event: None, topic: None, msg_seen: false, message: None }
}

/// Folds one member with key `key`, whose value starts at `i`, into `acc`;
/// yields the updated fields and the end of the value. A known key must not
/// repeat; `event` and `topic` must be strings; `message` must be a string or
/// null; an unknown key may hold any JSON value.
pub open spec fn sp_env_value(s: Seq<u8>, i: int, acc: FieldAcc, key: Seq<u8>) -> Option<
    (FieldAcc, int),
> {
    if key == key_event() {
        if acc.event is Some {
            None
        } else {
            let j = spec_skip_ws(s, i);
            if i <= j && j < s.len() && s[j] == 34 {
                match spec_string_body(s, j + 1) {
                    None => None,
                    Some((v, k)) => Some((FieldAcc { event: Some(v), ..acc }, k)),
                }
            } else {
                None
            }
        }
    } else if key == key_topic() {
        if acc.topic is Some {
            None
        } else {
            let j = spec_skip_ws(s, i);
            if i <= j && j < s.len() && s[j] == 34 {
                match spec_string_body(s, j + 1) {
                    None => None,
                    Some((v, k)) => Some((FieldAcc { topic: Some(v), ..acc }, k)),
                }
            } else {
                None
            }
        }
    } else if key == key_message() {
        if acc.msg_seen {
            None
        } else {
            let j = spec_skip_ws(s, i);
            if i <= j && j < s.len() && s[j] == 34 {
                match spec_string_body(s, j + 1) {
                    None => None,
                    Some((v, k)) => Some(
                        (FieldAcc { msg_seen: true, message: Some(v), ..acc }, k),
                    ),
                }
            } else if i <= j && j + 4 <= s.len() && s[j] == 110 && s[j + 1] == 117 && s[j + 2]
                == 108 && s[j + 3] == 108 {
                Some((FieldAcc { msg_seen: true, message: None, ..acc }, j + 4))
            } else {
                None
            }
        }
    } else {
        match sp_value(s, i, Seq::empty()) {
            None => None,
            Some(e) => Some((acc, e)),
        }
    }
}

/// Walks the members of the envelope object from `i` (just after `{` or a
/// comma) to the closing brace; yields the gathered fields and the position
/// just past the brace.
pub open spec fn sp_env_members(s: Seq<u8>, i: int, acc: FieldAcc) -> Option<(FieldAcc, int)>
    decreases s.len() - i,
{
    let j = spec_skip_ws(s, i);
    if !(i <= j && j < s.len() && s[j] == 34) {
        None
    } else {
        match spec_string_body(s, j + 1) {
            None => None,
            Some((key, k)) => if !(j + 1 < k && k <= s.len()) {
                None
            } else {
                let m = spec_skip_ws(s, k);
                if !(k <= m && m < s.len() && s[m] == 58) {
                    None
                } else {
                    match sp_env_value(s, m + 1, acc, key) {
                        None => None,
                        Some((acc2, e)) => if !(m + 1 <= e && e <= s.len()) {
                            None
                        } else {
                            let t = spec_skip_ws(s, e);
                            if !(e <= t && t < s.len()) {
                                None
                            } else if s[t] == 44 {
                                sp_env_members(s, t + 1, acc2)
                            } else if s[t] == 125 {
                                Some((acc2, t + 1))
                            } else {
                                None
                            }
                        },
                    }
                }
            },
        }
    }
}

/// The envelope decoded from the remaining members at `i` folded into `acc`:
/// the members up to the closing brace, nothing but whitespace after it, and
/// both required fields present.
pub open spec fn env_result(s: Seq<u8>, i: int, acc: FieldAcc) -> Option<EnvelopeView> {
    match sp_env_members(s, i, acc) {
        None => None,
        Some((acc2, e)) => if !(0 <= e && e <= s.len()) {
            None
        } else if spec_skip_ws(s, e) != s.len() {
            None
        } else {
            match (acc2.event, acc2.topic) {
                (Some(ev), Some(tp)) => Some(
                    EnvelopeView { event: ev, topic: tp, message: acc2.message },
                ),
                _ => None,
            }
        },
    }
}

/// Full decode of an envelope body: one JSON object with both required
/// fields, and nothing but whitespace after it.
pub open spec fn spec_parse_envelope(s: Seq<u8>) -> Option<EnvelopeView> {
    let j = spec_skip_ws(s, 0);
    if !(0 <= j && j < s.len() && s[j] == 123) {
        None
    } else {
        env_result(s, j + 1, empty_acc())
    }
}

spec fn acc_view(ev: Option<Vec<u8>>, tp: Option<Vec<u8>>, seen: bool, msg: Option<Vec<u8>>) -> FieldAcc {
    FieldAcc {
        event: match ev {
            Some(v) => Some(v@),
            None => None,
        },
        topic: match tp {
            Some(v) => Some(v@),
            None => None,
        },
        msg_seen: seen,
        message: match msg {
            Some(v) => Some(v@),
            None => None,
        },
    }
}

/// Byte-for-byte equality of two byte strings.
pub fn bytes_eq(a: &[u8], b: &[u8]) -> (r: bool)
    ensures
        r == (a@ == b@),
{
    if a.len() != b.len() {
        return false;
    }
    let mut i: usize = 0;
    while i < a.len()
        invariant
            i <= a@.len(),
            a@.len() == b@.len(),
            forall|k: int| 0 <= k < i ==> a@[k] == b@[k],
        decreases a@.len() - i,
    {
        if a[i] != b[i] {
            return false;
        }
        i = i + 1;
    }
    proof {
        assert(a@ =~= b@);
    }
    true
}

/// Decodes the body of an inbound text frame into an envelope.
#[verifier::rlimit(60)]
pub fn parse_envelope(s: &[u8]) -> (r: Option<Envelope>)
    ensures
        match r {
            Some(env) => spec_parse_envelope(s@) == Some(env@),
            None => spec_parse_envelope(s@) is None,
        },
{
    let key_ev: Vec<u8> = vec![101, 118, 101, 110, 116];
    let key_tp: Vec<u8> = vec![116, 111, 112, 105, 99];
    let key_msg: Vec<u8> = vec![109, 101, 115, 115, 97, 103, 101];
    proof {
        assert(key_ev@ =~= key_event());
        assert(key_tp@ =~= key_topic());
        assert(key_msg@ =~= key_message());
    }
    let j0 = skip_ws(s, 0);
    if !(j0 < s.len() && s[j0] == 123) {
        return None;
    }
    let mut cur: usize = j0 + 1;
    let mut ev: Option<Vec<u8>> = None;
    let mut tp: Option<Vec<u8>> = None;
    let mut seen: bool = false;
    let mut msg: Option<Vec<u8>> = None;
    loop
        invariant
            cur <= s@.len(),
            key_ev@ == key_event(),
            key_tp@ == key_topic(),
            key_msg@ == key_message(),
            spec_parse_envelope(s@) == env_result(s@, cur as int, acc_view(ev, tp, seen, msg)),
        decreases s@.len() - cur,
    {
        let j = skip_ws(s, cur);
        if !(j < s.len() && s[j] == 34) {
            return None;
        }
        let (key, k) = match parse_string_body(s, j + 1) {
            None => {
                return None;
            }
            Some(p) => p,
        };
        let m = skip_ws(s, k);
        if !(m < s.len() && s[m] == 58) {
            return None;
        }
        let ghost acc_before = acc_view(ev, tp, seen, msg);
        let vstart = m + 1;
        // fold this member's value into the gathered fields
        let vend: usize;
        if bytes_eq(key.as_slice(), key_ev.as_slice()) {
            if ev.is_some() {
                return None;
            }
            let vj = skip_ws(s, vstart);
            if !(vj < s.len() && s[vj] == 34) {
                return None;
            }
            match parse_string_body(s, vj + 1) {
                None => {
                    return None;
                }
                Some((v, ve)) => {
                    ev = Some(v);
                    vend = ve;
                }
            }
        } else if bytes_eq(key.as_slice(), key_tp.as_slice()) {
            if tp.is_some() {
                return None;
            }
            let vj = skip_ws(s, vstart);
            if !(vj < s.len() && s[vj] == 34) {
                return None;
            }
            match parse_string_body(s, vj + 1) {
                None => {
                    return None;
                }
                Some((v, ve)) => {
                    tp = Some(v);
                    vend = ve;
                }
            }
        } else if bytes_eq(key.as_slice(), key_msg.as_slice()) {
            if seen {
                return None;
            }
            let vj = skip_ws(s, vstart);
            if vj < s.len() && s[vj] == 34 {
                match parse_string_body(s, vj + 1) {
                    None => {
                        return None;
                    }
                    Some((v, ve)) => {
                        seen = true;
                        msg = Some(v);
                        vend = ve;
                    }
                }
            } else if vj < s.len() && s.len() - vj >= 4 && s[vj] == 110 && s[vj + 1] == 117
                && s[vj + 2] == 108 && s[vj + 3] == 108 {
                seen = true;
                msg = None;
                vend = vj + 4;
            } else {
                return None;
            }
        } else {
            match skip_value(s, vstart) {
                None => {
                    return None;
                }
                Some(e) => {
                    vend = e;
                }
            }
        }
        proof {
            assert(sp_env_value(s@, vstart as int, acc_before, key@) == Some(
                (acc_view(ev, tp, seen, msg), vend as int),
            ));
        }
        let t = skip_ws(s, vend);
        if !(t < s.len()) {
            return None;
        }
        if s[t] == 44 {
            proof {
                assert(sp_env_members(s@, cur as int, acc_before) == sp_env_members(
                    s@,
                    t + 1 as int,
                    acc_view(ev, tp, seen, msg),
                ));
            }
            cur = t + 1;
        } else if s[t] == 125 {
            proof {
                assert(sp_env_members(s@, cur as int, acc_before) == Some(
                    (acc_view(ev, tp, seen, msg), t + 1 as int),
                ));
            }
            let tail = skip_ws(s, t + 1);
            if tail != s.len() {
                return None;
            }
            let event = match ev {
                Some(v) => v,
                None => {
                    return None;
                }
            };
            let topic = match tp {
                Some(v) => v,
                None => {
                    return None;
                }
            };
            return Some(Envelope { event, topic, message: msg });
        } else {
            return None;
        }
    }
}

/// The bytes of the only event kind that is dispatched, `message`.
pub open spec fn event_message() -> Seq<u8> {
    seq![109u8, 101, 115, 115, 97, 103, 101]
}

/// The dispatch decision for the body of one inbound text frame: the text
/// handed to the Sink, if any. A body yields a dispatch exactly when it
/// decodes to an envelope whose event kind is `message`, whose topic is the
/// configured one, and whose message is present.
pub open spec fn spec_route(text: Seq<u8>, topic: Seq<u8>) -> Option<Seq<u8>> {
    match spec_parse_envelope(text) {
        None => None,
        Some(env) => if env.event == event_message() && env.topic == topic && env.message
            is Some {
            Some(env.message.unwrap())
        } else {
            None
        },
    }
}

/// Decides whether the body of one inbound text frame is dispatched to the
/// Sink, and with what text.
pub fn route_text(text: &[u8], topic: &[u8]) -> (r: Option<Vec<u8>>)
    ensures
        match r {
            Some(m) => spec_route(text@, topic@) == Some(m@),
            None => spec_route(text@, topic@) is None,
        },
{
    let ev_msg: Vec<u8> = vec![109, 101, 115, 115, 97, 103, 101];
    proof {
        assert(ev_msg@ =~= event_message());
    }
    match parse_envelope(text) {
        None => None,
        Some(env) => {
            if !bytes_eq(env.event.as_slice(), ev_msg.as_slice()) {
                return None;
            }
            if !bytes_eq(env.topic.as_slice(), topic) {
                return None;
            }
            match env.message {
                Some(m) => Some(m),
                None => None,
            }
        }
    }
}

} // verus!
