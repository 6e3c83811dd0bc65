//! Process configuration: the immutable values the client runs with, resolved
//! once at startup from the optional inputs the environment provides.
//!
//! Text values are carried as UTF-8 bytes; the caller hands each input in as
//! the raw bytes of the environment variable, or `None` where it is unset.

use vstd::prelude::*;

verus! {

/// Idle timeout, in seconds, used when none is configured.
pub const DEFAULT_IDLE_TIMEOUT: u64 = 120;

/// ASCII decimal digit.
pub open spec fn is_digit(b: u8) -> bool {
    48 <= b && b <= 57
}

pub open spec fn all_digits(s: Seq<u8>) -> bool {
    forall|i: int| 0 <= i < s.len() ==> is_digit(s[i])
}

/// Numeric value of a digit string, most significant digit first.
pub open spec fn dec_val(s: Seq<u8>) -> int
    decreases s.len(),
{
    if s.len() == 0 {
        0
    } else {
        dec_val(s.drop_last()) * 10 + (s.last() - 48)
    }
}

pub proof fn lemma_dec_val_nonneg(s: Seq<u8>)
    requires
        all_digits(s),
    ensures
        dec_val(s) >= 0,
    decreases s.len(),
{
    if s.len() > 0 {
        assert(all_digits(s.drop_last()));
        lemma_dec_val_nonneg(s.drop_last());
    }
}

/// Extending a digit string to the right can only increase its value.
pub proof fn lemma_dec_val_prefix(s: Seq<u8>, n: int)
    requires
        all_digits(s),
        0 <= n <= s.len(),
    ensures
        dec_val(s.subrange(0, n)) <= dec_val(s),
    decreases s.len() - n,
{
    if n < s.len() {
        let t = s.subrange(0, n + 1);
        assert(t.drop_last() =~= s.subrange(0, n));
        assert(all_digits(t));
        lemma_dec_val_nonneg(t.drop_last());
        assert(dec_val(t) == dec_val(s.subrange(0, n)) * 10 + (t.last() - 48));
        assert(dec_val(s.subrange(0, n)) * 10 >= dec_val(s.subrange(0, n))) by (nonlinear_arith)
            requires dec_val(s.subrange(0, n)) >= 0;
        lemma_dec_val_prefix(s, n + 1);
        assert(s.subrange(0, s.len() as int) =~= s);
    } else {
        assert(s.subrange(0, n) =~= s);
    }
}

/// The digits of `s`, past an optional leading `+` sign.
pub open spec fn spec_u64_digits(s: Seq<u8>) -> Seq<u8> {
    if s.len() > 0 && s[0] == 43 {
        s.subrange(1, s.len() as int)
    } else {
        s
    }
}

/// Decimal parse of an unsigned 64-bit value: an optional `+` sign followed by
/// at least one digit, whose value fits in `u64`.
pub open spec fn spec_parse_u64(s: Seq<u8>) -> Option<u64> {
    let d = spec_u64_digits(s);
    if d.len() > 0 && all_digits(d) && dec_val(d) <= u64::MAX {
        Some(dec_val(d) as u64)
    } else {
        None
    }
}

/// Parses an unsigned decimal integer from UTF-8 bytes.
pub fn parse_u64(s: &[u8]) -> (r: Option<u64>)
    ensures
        r == spec_parse_u64(s@),
{
    let ghost d = spec_u64_digits(s@);
    let start: usize = if s.len() > 0 && s[0] == 43 {
        1
    } else {
        0
    };
    assert(d =~= s@.subrange(start as int, s@.len() as int));
    if s.len() == start {
        return None;
    }
    let mut i: usize = start;
    let mut acc: u64 = 0;
    while i < s.len()
        invariant
            start <= i <= s@.len(),
            d == s@.subrange(start as int, s@.len() as int),
            d == spec_u64_digits(s@),
            d.len() > 0,
            all_digits(s@.subrange(start as int, i as int)),
            acc == dec_val(s@.subrange(start as int, i as int)),
        decreases s@.len() - i,
    {
        let b = s[i];
        let ghost pre = s@.subrange(start as int, i as int);
        let ghost cur = s@.subrange(start as int, i + 1 as int);
        assert(cur.drop_last() =~= pre);
        assert(cur.last() == s@[i as int]);
        if !(48 <= b && b <= 57) {
            proof {
                assert(d[i - start] == s@[i as int]);
                assert(!is_digit(d[i - start]));
                assert(!all_digits(d));
            }
            return None;
        }
        assert(all_digits(cur));
        proof {
            lemma_dec_val_nonneg(cur);
        }
        let step = match acc.checked_mul(10) {
            Some(m) => m.checked_add((b - 48) as u64),
            None => None,
        };
        match step {
            Some(v) => {
                acc = v;
            }
            None => {
                // The value of the digits seen so far already exceeds
                // `u64::MAX`, so the whole string cannot fit either.
                proof {
                    assert(dec_val(cur) == acc * 10 + (b - 48));
                    assert(dec_val(cur) > u64::MAX);
                    if all_digits(d) {
                        lemma_dec_val_prefix(d, i + 1 - start);
                        assert(d.subrange(0, i + 1 - start) =~= cur);
                    }
                }
                return None;
            }
        }
        i = i + 1;
    }
    assert(s@.subrange(start as int, i as int) =~= d);
    Some(acc)
}

/// The immutable configuration the client runs with.
pub struct Config {
    /// Relay host, UTF-8 bytes.
    pub server: Vec<u8>,
    /// URL scheme for the WebSocket endpoint, UTF-8 bytes.
    pub scheme: Vec<u8>,
    /// Subscribed topic, UTF-8 bytes; never empty.
    pub topic: Vec<u8>,
    /// Bearer token, UTF-8 bytes; empty means no authentication.
    pub token: Vec<u8>,
    /// Maximum tolerated gap, in seconds, since the last inbound frame.
    pub idle_timeout: u64,
}

impl Config {
    /// Invariant established by `resolve_config`.
    pub open spec fn wf(&self) -> bool {
        self.topic@.len() > 0 && self.idle_timeout > 0
    }
}

/// The one fatal startup error: no usable topic was configured.
#[derive(Debug, PartialEq, Eq, Structural)]
pub enum ConfigError {
    MissingTopic,
}

/// Default relay host, the bytes of `ntfy.sh`.
pub open spec fn default_server() -> Seq<u8> {
    seq![110u8, 116, 102, 121, 46, 115, 104]
}

/// Default scheme, the bytes of `wss`.
pub open spec fn default_scheme() -> Seq<u8> {
    seq![119u8, 115, 115]
}

/// The configured idle timeout: the given value when it parses as a positive
/// integer, the default otherwise.
pub open spec fn spec_timeout(t: Option<Vec<u8>>) -> u64 {
    match t {
        None => DEFAULT_IDLE_TIMEOUT,
        Some(s) => match spec_parse_u64(s@) {
            Some(v) => if v > 0 {
                v
            } else {
                DEFAULT_IDLE_TIMEOUT
            },
            None => DEFAULT_IDLE_TIMEOUT,
        },
    }
}

/// Resolves the configuration from the optional environment inputs.
///
/// Fails exactly when no topic is given or the given topic is empty; every
/// other input falls back to its default.
pub fn resolve_config(
    server: Option<Vec<u8>>,
    scheme: Option<Vec<u8>>,
    topic: Option<Vec<u8>>,
    token: Option<Vec<u8>>,
    timeout: Option<Vec<u8>>,
) -> (r: Result<Config, ConfigError>)
    ensures
        r matches Err(e) ==> e == ConfigError::MissingTopic,
        (r matches Err(_)) <==> match topic {
            None => true,
            Some(t) => t@.len() == 0,
        },
        r matches Ok(c) ==> {
            &&& c.wf()
            &&& c.topic@ == topic.unwrap()@
            &&& c.server@ == match server {
                Some(s) => s@,
                None => default_server(),
            }
            &&& c.scheme@ == match scheme {
                Some(s) => s@,
                None => default_scheme(),
            }
            &&& c.token@ == match token {
                Some(s) => s@,
                None => Seq::<u8>::empty(),
            }
            &&& c.idle_timeout == spec_timeout(timeout)
        },
{
    let topic = match topic {
        Some(t) => t,
        None => {
            return Err(ConfigError::MissingTopic);
        }
    };
    if topic.len() == 0 {
        return Err(ConfigError::MissingTopic);
    }
    let server = match server {
        Some(s) => s,
        None => {
            let v: Vec<u8> = vec![110, 116, 102, 121, 46, 115, 104];
            assert(v@ =~= default_server());
            v
        }
    };
    let scheme = match scheme {
        Some(s) => s,
        None => {
            let v: Vec<u8> = vec![119, 115, 115];
            assert(v@ =~= default_scheme());
            v
        }
    };
    let token = match token {
        Some(s) => s,
        None => Vec::new(),
    };
    let idle_timeout: u64 = match timeout {
        Some(ref s) => match parse_u64(s.as_slice()) {
            Some(v) => if v > 0 {
                v
            } else {
                DEFAULT_IDLE_TIMEOUT
            },
            None => DEFAULT_IDLE_TIMEOUT,
        },
        None => DEFAULT_IDLE_TIMEOUT,
    };
    Ok(Config { server, scheme, topic, token, idle_timeout })
}

} // verus!
