//! The first exchange with the rendezvous server, and the clock that keeps
//! handshake requests at least three seconds apart.
use vstd::prelude::*;
use crate::packet::{
    build_packet,
    header_bytes,
    Header,
    GATEWAY_IP,
    MAX_TTL,
    PROTOCOL_SERVICE,
    SELF_IP,
    SERVICE_HANDSHAKE_REQUEST,
    SERVICE_SECRET_HANDSHAKE_REQUEST,
};
use crate::proto::{
    encode_handshake_request,
    encode_secret_handshake_request,
    handshake_request_bytes,
    secret_handshake_request_bytes,
};

verus! {

/// Minimum time between two handshake requests, in milliseconds.
pub const HANDSHAKE_INTERVAL_MS: u64 = 3000;

/// Why a handshake did not complete.
#[derive(Clone, Debug, PartialEq, Eq)]
pub enum HandshakeEnum {
    NotSecret,
    KeyError,
    Timeout,
    ServerError(String),
    Other(String),
}

/// The protocol version this node announces: "1.2.4" in ASCII.
pub open spec fn version_seq() -> Seq<u8> {
    seq![49u8, 46u8, 50u8, 46u8, 52u8]
}

pub fn version_bytes() -> (r: Vec<u8>)
    ensures
        r@ == version_seq(),
{
    let r: Vec<u8> = vec![49u8, 46u8, 50u8, 46u8, 52u8];
    assert(r@ =~= version_seq());
    r
}

/// Header of a request to the gateway.
pub open spec fn gateway_header(transport: u8) -> Header {
    Header {
        encrypted: false,
        gateway: true,
        protocol: PROTOCOL_SERVICE,
        transport,
        ttl: MAX_TTL,
        source_ttl: MAX_TTL,
        source: SELF_IP,
        destination: GATEWAY_IP,
    }
}

fn gateway_header_exec(transport: u8) -> (r: Header)
    ensures
        r == gateway_header(transport),
        r.wf(),
{
    Header {
        encrypted: false,
        gateway: true,
        protocol: PROTOCOL_SERVICE,
        transport,
        ttl: MAX_TTL,
        source_ttl: MAX_TTL,
        source: SELF_IP,
        destination: GATEWAY_IP,
    }
}

/// The first handshake datagram: a gateway header followed by a
/// `HandshakeRequest` carrying `secret` and this node's version.
pub fn handshake_request_packet(secret: bool) -> (r: Vec<u8>)
    ensures
        r@ == header_bytes(gateway_header(SERVICE_HANDSHAKE_REQUEST)) + handshake_request_bytes(
            secret,
            version_seq(),
        ),
{
    let version = version_bytes();
    let body = encode_handshake_request(secret, version.as_slice());
    let h = gateway_header_exec(SERVICE_HANDSHAKE_REQUEST);
    build_packet(&h, body.as_slice())
}

/// The second, secret handshake datagram before RSA sealing: a gateway
/// header followed by a `SecretHandshakeRequest` carrying the token and the
/// freshly drawn symmetric key.
pub fn secret_handshake_request_packet(token: &[u8], key: &[u8]) -> (r: Vec<u8>)
    requires
        token@.len() <= u32::MAX,
        key@.len() <= u32::MAX,
    ensures
        r@ == header_bytes(gateway_header(SERVICE_SECRET_HANDSHAKE_REQUEST))
            + secret_handshake_request_bytes(token@, key@),
{
    let body = encode_secret_handshake_request(token, key);
    let h = gateway_header_exec(SERVICE_SECRET_HANDSHAKE_REQUEST);
    build_packet(&h, body.as_slice())
}

/// Whether a request may leave at `now` when the last one left at `last`
/// (a clock that went backwards counts as no time elapsed).
pub open spec fn spec_due(last: Option<u64>, now: u64) -> bool {
    match last {
        None => true,
        Some(t) => now >= t && now - t >= HANDSHAKE_INTERVAL_MS,
    }
}

/// The handshake clock.
#[derive(Clone, Copy, Debug)]
pub struct Handshake {
    pub last_sent: Option<u64>,
}

impl Handshake {
    /// A clock that lets the first request through.
    pub fn new() -> (r: Handshake)
        ensures
            r.last_sent is None,
    {
        Handshake { last_sent: None }
    }

    /// The handshake request to send at time `now` (milliseconds), or `None`
    /// when one left less than three seconds ago. The clock moves only when
    /// the caller reports the request sent.
    pub fn send(&self, now: u64, secret: bool) -> (r: Option<Vec<u8>>)
        ensures
            r is Some <==> spec_due(self.last_sent, now),
            r is Some ==> r->0@ == header_bytes(gateway_header(SERVICE_HANDSHAKE_REQUEST))
                + handshake_request_bytes(secret, version_seq()),
    {
        let due = match self.last_sent {
            None => true,
            Some(t) => now >= t && now - t >= HANDSHAKE_INTERVAL_MS,
        };
        if !due {
            return None;
        }
        Some(handshake_request_packet(secret))
    }

    /// Records that a request left at `now`.
    pub fn sent(&mut self, now: u64)
        ensures
            final(self).last_sent == Some(now),
    {
        self.last_sent = Some(now);
    }
}

impl Default for Handshake {
    fn default() -> (r: Handshake)
        ensures
            r.last_sent is None,
    {
        Handshake::new()
    }
}

/// Once a request has left at `t1`, a send at `t2` with
/// `t1 <= t2 < t1 + 3 s` issues none: two sends within three seconds put one
/// request on the wire. A send that was not reported sent leaves the clock
/// as it was, so the next one may go at once.
pub proof fn lemma_handshake_rate_limit(t1: u64, t2: u64)
    requires
        t1 <= t2,
        t2 - t1 < HANDSHAKE_INTERVAL_MS,
    ensures
        !spec_due(Some(t1), t2),
        spec_due(None, t2),
{
}

} // verus!
