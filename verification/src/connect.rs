//! Building the connection target: the WebSocket URL for the configured
//! topic and the bearer header for the upgrade request.
//!
//! The handshake itself is I/O and stays outside the library; what is
//! decided here is the exact bytes handed to it, and whether they are valid
//! at all — an invalid URL or token fails before anything is dialled.

use vstd::prelude::*;
use crate::config::Config;

verus! {

/// The connection target for a configuration:
/// `{scheme}://{server}/{topic}/ws`.
pub open spec fn spec_target(scheme: Seq<u8>, server: Seq<u8>, topic: Seq<u8>) -> Seq<u8> {
    scheme + seq![58u8, 47, 47] + server + seq![47u8] + topic + seq![47u8, 119, 115]
}

/// The authorization header value for a token: `Bearer {token}`.
pub open spec fn spec_bearer(token: Seq<u8>) -> Seq<u8> {
    seq![66u8, 101, 97, 114, 101, 114, 32] + token
}

/// Whether `url::Url::parse` accepts the given bytes as an absolute URL; the
/// result depends on the bytes alone.
pub uninterp spec fn url_ok(s: Seq<u8>) -> bool;

/// Relies on `url::Url::parse`: whether the bytes parse as an absolute URL.
/// Bytes that are not UTF-8 are no URL.
#[verifier::external_body]
fn url_parses(b: &[u8]) -> (r: bool)
    ensures
        r == url_ok(b@),
{
    match core::str::from_utf8(b) {
        Ok(s) => url::Url::parse(s).is_ok(),
        Err(_) => false,
    }
}

/// A byte `http::HeaderValue` accepts: 32 and above except delete, or tab.
pub open spec fn header_byte_ok(b: u8) -> bool {
    (b >= 32 && b != 127) || b == 9
}

pub open spec fn header_value_ok(s: Seq<u8>) -> bool {
    forall|i: int| 0 <= i < s.len() ==> header_byte_ok(s[i])
}

/// Relies on `http::HeaderValue::from_bytes`: it accepts exactly the byte
/// strings whose every byte is 32 or above and not delete, or a tab.
#[verifier::external_body]
fn header_value_parses(b: &[u8]) -> (r: bool)
    ensures
        r == header_value_ok(b@),
{
    tokio_tungstenite::tungstenite::http::HeaderValue::from_bytes(b).is_ok()
}

/// Appends all of `s` to `v`.
fn push_all(v: &mut Vec<u8>, s: &[u8])
    ensures
        final(v)@ == old(v)@ + s@,
{
    let mut i: usize = 0;
    while i < s.len()
        invariant
            i <= s@.len(),
            v@ == old(v)@ + s@.subrange(0, i as int),
        decreases s@.len() - i,
    {
        proof {
            assert((old(v)@ + s@.subrange(0, i as int)).push(s@[i as int]) =~= old(v)@
                + s@.subrange(0, i + 1 as int));
        }
        v.push(s[i]);
        i = i + 1;
    }
    proof {
        assert(s@.subrange(0, s@.len() as int) =~= s@);
    }
}

/// Builds the connection target for the configuration.
pub fn build_target(cfg: &Config) -> (t: Vec<u8>)
    ensures
        t@ == spec_target(cfg.scheme@, cfg.server@, cfg.topic@),
{
    let mut t: Vec<u8> = Vec::new();
    push_all(&mut t, cfg.scheme.as_slice());
    t.push(58);
    t.push(47);
    t.push(47);
    push_all(&mut t, cfg.server.as_slice());
    t.push(47);
    push_all(&mut t, cfg.topic.as_slice());
    t.push(47);
    t.push(119);
    t.push(115);
    proof {
        assert(t@ =~= spec_target(cfg.scheme@, cfg.server@, cfg.topic@));
    }
    t
}

/// Builds the authorization header value for a token.
pub fn build_bearer(token: &[u8]) -> (a: Vec<u8>)
    ensures
        a@ == spec_bearer(token@),
{
    let mut a: Vec<u8> = Vec::new();
    a.push(66);
    a.push(101);
    a.push(97);
    a.push(114);
    a.push(101);
    a.push(114);
    a.push(32);
    push_all(&mut a, token);
    proof {
        assert(a@ =~= spec_bearer(token@));
    }
    a
}

/// Why no connection attempt could be made from the configuration.
#[derive(Debug, PartialEq, Eq, Structural)]
pub enum ConnectError {
    /// The built target is not a parseable URL.
    InvalidUrl,
    /// The bearer header built from the token is not a valid header value.
    InvalidToken,
}

/// Everything the handshake needs: the target URL's bytes, and the
/// authorization header value when a token is configured.
pub struct ConnectPlan {
    pub target: Vec<u8>,
    pub auth: Option<Vec<u8>>,
}

/// Decides the exact bytes of the upgrade request for a configuration, or
/// why none can be made: the target must parse as a URL, and, when a token
/// is configured, the bearer header built from it must be a valid header
/// value. An empty token means no header.
pub fn connect_plan(cfg: &Config) -> (r: Result<ConnectPlan, ConnectError>)
    ensures
        (r matches Err(ConnectError::InvalidUrl)) <==> !url_ok(
            spec_target(cfg.scheme@, cfg.server@, cfg.topic@),
        ),
        (r matches Err(ConnectError::InvalidToken)) <==> (url_ok(
            spec_target(cfg.scheme@, cfg.server@, cfg.topic@),
        ) && cfg.token@.len() > 0 && !header_value_ok(spec_bearer(cfg.token@))),
        r matches Ok(p) ==> {
            &&& p.target@ == spec_target(cfg.scheme@, cfg.server@, cfg.topic@)
            &&& url_ok(p.target@)
            &&& (cfg.token@.len() == 0 ==> p.auth is None)
            &&& (cfg.token@.len() > 0 ==> (p.auth matches Some(a) && a@ == spec_bearer(
                cfg.token@,
            ) && header_value_ok(a@)))
        },
{
    let target = build_target(cfg);
    if !url_parses(target.as_slice()) {
        return Err(ConnectError::InvalidUrl);
    }
    if cfg.token.len() == 0 {
        return Ok(ConnectPlan { target, auth: None });
    }
    let auth = build_bearer(cfg.token.as_slice());
    if !header_value_parses(auth.as_slice()) {
        return Err(ConnectError::InvalidToken);
    }
    Ok(ConnectPlan { target, auth: Some(auth) })
}

} // verus!
