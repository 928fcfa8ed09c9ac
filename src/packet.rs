//! The fixed 12-byte overlay header.
//!
//! Byte 0 holds the protocol version in its high nibble and the flags in its
//! low nibble (bit 3: payload encrypted, bit 2: gateway flag, bits 1 and 0:
//! reserved, zero). Byte 1 is the protocol, byte 2 the sub-protocol, byte 3
//! the current TTL (high nibble) and the initial TTL (low nibble). Bytes 4..8
//! and 8..12 are the source and destination virtual IPv4, big-endian.
use vstd::prelude::*;

verus! {

pub const HEAD_LEN: usize = 12;

pub const VERSION_V1: u8 = 1;

pub const MAX_TTL: u8 = 15;

pub const FLAG_ENCRYPTED: u8 = 0x08;

pub const FLAG_GATEWAY: u8 = 0x04;

pub const FLAG_RESERVED: u8 = 0x03;

/// Reserved source address used when talking to the gateway.
pub const SELF_IP: u32 = 0x0a1a_0002;

/// Reserved destination address of the gateway.
pub const GATEWAY_IP: u32 = 0x0a1a_0001;

pub const PROTOCOL_SERVICE: u8 = 1;

pub const PROTOCOL_ERROR: u8 = 2;

pub const PROTOCOL_CONTROL: u8 = 3;

pub const PROTOCOL_IP_TURN: u8 = 4;

pub const PROTOCOL_OTHER_TURN: u8 = 5;

pub const SERVICE_HANDSHAKE_REQUEST: u8 = 5;

pub const SERVICE_SECRET_HANDSHAKE_REQUEST: u8 = 7;

pub const CONTROL_PING: u8 = 1;

pub const CONTROL_PONG: u8 = 2;

pub const CONTROL_PUNCH_REQUEST: u8 = 3;

pub const CONTROL_PUNCH_RESPONSE: u8 = 4;

pub const CONTROL_ADDR_REQUEST: u8 = 5;

pub const CONTROL_ADDR_RESPONSE: u8 = 6;

pub const IP_TURN_IPV4: u8 = 4;

pub const IP_TURN_IPV4_BROADCAST: u8 = 201;

pub const OTHER_TURN_PUNCH: u8 = 1;

/// The top-level protocol of an overlay datagram.
#[derive(Clone, Copy, Debug, PartialEq, Eq, Structural)]
pub enum Protocol {
    Service,
    Error,
    Control,
    IpTurn,
    OtherTurn,
    Unknown(u8),
}

impl Protocol {
    pub open spec fn spec_from_u8(b: u8) -> Protocol {
        if b == PROTOCOL_SERVICE {
            Protocol::Service
        } else if b == PROTOCOL_ERROR {
            Protocol::Error
        } else if b == PROTOCOL_CONTROL {
            Protocol::Control
        } else if b == PROTOCOL_IP_TURN {
            Protocol::IpTurn
        } else if b == PROTOCOL_OTHER_TURN {
            Protocol::OtherTurn
        } else {
            Protocol::Unknown(b)
        }
    }

    pub fn from_u8(b: u8) -> (r: Protocol)
        ensures
            r == Self::spec_from_u8(b),
    {
        if b == PROTOCOL_SERVICE {
            Protocol::Service
        } else if b == PROTOCOL_ERROR {
            Protocol::Error
        } else if b == PROTOCOL_CONTROL {
            Protocol::Control
        } else if b == PROTOCOL_IP_TURN {
            Protocol::IpTurn
        } else if b == PROTOCOL_OTHER_TURN {
            Protocol::OtherTurn
        } else {
            Protocol::Unknown(b)
        }
    }
}

/// The decoded fields of an overlay header.
#[derive(Clone, Copy, Debug, PartialEq, Eq, Structural)]
pub struct Header {
    pub encrypted: bool,
    pub gateway: bool,
    pub protocol: u8,
    pub transport: u8,
    pub ttl: u8,
    pub source_ttl: u8,
    pub source: u32,
    pub destination: u32,
}

impl Header {
    /// Both TTL fields fit in their nibble.
    pub open spec fn wf(self) -> bool {
        self.ttl <= MAX_TTL && self.source_ttl <= MAX_TTL
    }

    /// A header whose current and initial TTL are both `ttl`.
    pub open spec fn spec_new(
        protocol: u8,
        transport: u8,
        ttl: u8,
        source: u32,
        destination: u32,
    ) -> Header {
        Header {
            encrypted: false,
            gateway: false,
            protocol,
            transport,
            ttl,
            source_ttl: ttl,
            source,
            destination,
        }
    }

    pub fn new(protocol: u8, transport: u8, ttl: u8, source: u32, destination: u32) -> (r: Header)
        requires
            ttl <= MAX_TTL,
        ensures
            r == Self::spec_new(protocol, transport, ttl, source, destination),
            r.wf(),
    {
        Header {
            encrypted: false,
            gateway: false,
            protocol,
            transport,
            ttl,
            source_ttl: ttl,
            source,
            destination,
        }
    }
}

pub open spec fn flag_bits(h: Header) -> u8 {
    (if h.encrypted {
        FLAG_ENCRYPTED
    } else {
        0u8
    }) | (if h.gateway {
        FLAG_GATEWAY
    } else {
        0u8
    })
}

/// The four big-endian bytes of `x`.
pub open spec fn be_bytes(x: u32) -> Seq<u8> {
    seq![(x >> 24u32) as u8, (x >> 16u32) as u8, (x >> 8u32) as u8, x as u8]
}

/// The integer that four big-endian bytes hold.
pub open spec fn be_value(a: u8, b: u8, c: u8, d: u8) -> u32 {
    ((a as u32) << 24u32) | ((b as u32) << 16u32) | ((c as u32) << 8u32) | (d as u32)
}

/// The twelve bytes that encode `h`.
pub open spec fn header_bytes(h: Header) -> Seq<u8> {
    seq![
        (VERSION_V1 << 4u8) | flag_bits(h),
        h.protocol,
        h.transport,
        (h.ttl << 4u8) | h.source_ttl,
    ] + be_bytes(h.source) + be_bytes(h.destination)
}

/// Whether `b` starts with a header that decodes: long enough, version 1,
/// no reserved flag set.
pub open spec fn spec_header_valid(b: Seq<u8>) -> bool {
    b.len() >= 12 && (b[0] >> 4u8) == VERSION_V1 && (b[0] & FLAG_RESERVED) == 0
}

/// The header that the first twelve bytes of `b` hold.
pub open spec fn spec_decode(b: Seq<u8>) -> Header {
    Header {
        encrypted: (b[0] & FLAG_ENCRYPTED) != 0,
        gateway: (b[0] & FLAG_GATEWAY) != 0,
        protocol: b[1],
        transport: b[2],
        ttl: b[3] >> 4u8,
        source_ttl: b[3] & 0x0fu8,
        source: be_value(b[4], b[5], b[6], b[7]),
        destination: be_value(b[8], b[9], b[10], b[11]),
    }
}

proof fn lemma_be_round_trip(x: u32)
    ensures
        be_value((x >> 24u32) as u8, (x >> 16u32) as u8, (x >> 8u32) as u8, x as u8) == x,
{
    assert(((((x >> 24u32) as u8) as u32) << 24u32) | ((((x >> 16u32) as u8) as u32) << 16u32)
        | ((((x >> 8u32) as u8) as u32) << 8u32) | ((x as u8) as u32) == x) by (bit_vector);
}

proof fn lemma_byte0(enc: bool, gw: bool)
    ensures
        ({
            let f = (if enc {
                FLAG_ENCRYPTED
            } else {
                0u8
            }) | (if gw {
                FLAG_GATEWAY
            } else {
                0u8
            });
            let b0 = (VERSION_V1 << 4u8) | f;
            &&& (b0 >> 4u8) == VERSION_V1
            &&& (b0 & FLAG_RESERVED) == 0
            &&& ((b0 & FLAG_ENCRYPTED) != 0) == enc
            &&& ((b0 & FLAG_GATEWAY) != 0) == gw
        }),
{
    assert(((1u8 << 4u8) | (8u8 | 4u8)) >> 4u8 == 1u8) by (bit_vector);
    assert(((1u8 << 4u8) | (8u8 | 0u8)) >> 4u8 == 1u8) by (bit_vector);
    assert(((1u8 << 4u8) | (0u8 | 4u8)) >> 4u8 == 1u8) by (bit_vector);
    assert(((1u8 << 4u8) | (0u8 | 0u8)) >> 4u8 == 1u8) by (bit_vector);
    assert(((1u8 << 4u8) | (8u8 | 4u8)) & 3u8 == 0u8) by (bit_vector);
    assert(((1u8 << 4u8) | (8u8 | 0u8)) & 3u8 == 0u8) by (bit_vector);
    assert(((1u8 << 4u8) | (0u8 | 4u8)) & 3u8 == 0u8) by (bit_vector);
    assert(((1u8 << 4u8) | (0u8 | 0u8)) & 3u8 == 0u8) by (bit_vector);
    assert(((1u8 << 4u8) | (8u8 | 4u8)) & 8u8 == 8u8) by (bit_vector);
    assert(((1u8 << 4u8) | (8u8 | 0u8)) & 8u8 == 8u8) by (bit_vector);
    assert(((1u8 << 4u8) | (0u8 | 4u8)) & 8u8 == 0u8) by (bit_vector);
    assert(((1u8 << 4u8) | (0u8 | 0u8)) & 8u8 == 0u8) by (bit_vector);
    assert(((1u8 << 4u8) | (8u8 | 4u8)) & 4u8 == 4u8) by (bit_vector);
    assert(((1u8 << 4u8) | (8u8 | 0u8)) & 4u8 == 0u8) by (bit_vector);
    assert(((1u8 << 4u8) | (0u8 | 4u8)) & 4u8 == 4u8) by (bit_vector);
    assert(((1u8 << 4u8) | (0u8 | 0u8)) & 4u8 == 0u8) by (bit_vector);
}

proof fn lemma_ttl_byte(ttl: u8, src: u8)
    requires
        ttl <= 15,
        src <= 15,
    ensures
        ((ttl << 4u8) | src) >> 4u8 == ttl,
        ((ttl << 4u8) | src) & 0x0fu8 == src,
{
    assert(ttl <= 15 && src <= 15 ==> ((ttl << 4u8) | src) >> 4u8 == ttl) by (bit_vector);
    assert(ttl <= 15 && src <= 15 ==> ((ttl << 4u8) | src) & 0x0fu8 == src) by (bit_vector);
}

/// Decoding the bytes of a well-formed header gives that header back.
pub proof fn lemma_header_round_trip(h: Header)
    requires
        h.wf(),
    ensures
        header_bytes(h).len() == 12,
        spec_header_valid(header_bytes(h)),
        spec_decode(header_bytes(h)) == h,
{
    lemma_byte0(h.encrypted, h.gateway);
    lemma_ttl_byte(h.ttl, h.source_ttl);
    lemma_be_round_trip(h.source);
    lemma_be_round_trip(h.destination);
}

/// Setting a reserved flag bit in an encoded header makes it undecodable.
pub proof fn lemma_reserved_bit_rejected(h: Header, bit: u8)
    requires
        h.wf(),
        bit == 1 || bit == 2,
    ensures
        !spec_header_valid(header_bytes(h).update(0, header_bytes(h)[0] | bit)),
{
    let b0 = header_bytes(h)[0];
    assert(b0 == (VERSION_V1 << 4u8) | flag_bits(h));
    assert((b0 | 1u8) & 3u8 != 0u8) by (bit_vector);
    assert((b0 | 2u8) & 3u8 != 0u8) by (bit_vector);
}

/// The big-endian bytes of `x`, appended to `out`.
fn push_be32(out: &mut Vec<u8>, x: u32)
    ensures
        final(out)@ == old(out)@ + be_bytes(x),
{
    out.push((x >> 24u32) as u8);
    out.push((x >> 16u32) as u8);
    out.push((x >> 8u32) as u8);
    out.push(x as u8);
}

/// Appends the encoding of `h` to `out`.
pub fn write_header(out: &mut Vec<u8>, h: &Header)
    requires
        h.wf(),
    ensures
        final(out)@ == old(out)@ + header_bytes(*h),
{
    let f: u8 = (if h.encrypted {
        FLAG_ENCRYPTED
    } else {
        0u8
    }) | (if h.gateway {
        FLAG_GATEWAY
    } else {
        0u8
    });
    out.push((VERSION_V1 << 4u8) | f);
    out.push(h.protocol);
    out.push(h.transport);
    out.push((h.ttl << 4u8) | h.source_ttl);
    push_be32(out, h.source);
    push_be32(out, h.destination);
    assert(final(out)@ =~= old(out)@ + header_bytes(*h));
}

/// The encoding of `h` followed by `payload`.
pub fn build_packet(h: &Header, payload: &[u8]) -> (r: Vec<u8>)
    requires
        h.wf(),
    ensures
        r@ == header_bytes(*h) + payload@,
{
    let mut out: Vec<u8> = Vec::new();
    write_header(&mut out, h);
    let mut i: usize = 0;
    while i < payload.len()
        invariant
            i <= payload@.len(),
            out@ == header_bytes(*h) + payload@.subrange(0, i as int),
        decreases payload@.len() - i,
    {
        out.push(payload[i]);
        i = i + 1;
        assert(out@ =~= header_bytes(*h) + payload@.subrange(0, i as int));
    }
    assert(payload@.subrange(0, payload@.len() as int) =~= payload@);
    out
}

/// Replaces the header at the start of `b` by the encoding of `h`.
pub fn rewrite_header(b: &mut Vec<u8>, h: &Header)
    requires
        h.wf(),
        old(b)@.len() >= HEAD_LEN,
    ensures
        final(b)@ == header_bytes(*h) + old(b)@.subrange(HEAD_LEN as int, old(b)@.len() as int),
{
    let mut head: Vec<u8> = Vec::new();
    write_header(&mut head, h);
    let mut i: usize = 0;
    while i < HEAD_LEN
        invariant
            i <= HEAD_LEN,
            head@ == header_bytes(*h),
            head@.len() == HEAD_LEN,
            old(b)@.len() >= HEAD_LEN,
            b@.len() == old(b)@.len(),
            forall|k: int| 0 <= k < i ==> b@[k] == head@[k],
            forall|k: int| i <= k < b@.len() ==> b@[k] == old(b)@[k],
        decreases HEAD_LEN - i,
    {
        b.set(i, head[i]);
        i = i + 1;
    }
    assert(b@ =~= header_bytes(*h) + old(b)@.subrange(HEAD_LEN as int, old(b)@.len() as int));
}

/// Decodes the header at the start of `b`; `None` when the buffer is shorter
/// than a header, the version is not 1, or a reserved flag is set.
pub fn decode_header(b: &[u8]) -> (r: Option<Header>)
    ensures
        r is Some <==> spec_header_valid(b@),
        r is Some ==> r->0 == spec_decode(b@) && r->0.wf(),
{
    if b.len() < HEAD_LEN {
        return None;
    }
    if (b[0] >> 4u8) != VERSION_V1 || (b[0] & FLAG_RESERVED) != 0 {
        return None;
    }
    let t = b[3];
    assert(t >> 4u8 <= 15u8 && t & 0x0fu8 <= 15u8) by (bit_vector);
    Some(
        Header {
            encrypted: (b[0] & FLAG_ENCRYPTED) != 0,
            gateway: (b[0] & FLAG_GATEWAY) != 0,
            protocol: b[1],
            transport: b[2],
            ttl: t >> 4u8,
            source_ttl: t & 0x0fu8,
            source: ((b[4] as u32) << 24u32) | ((b[5] as u32) << 16u32) | ((b[6] as u32) << 8u32)
                | (b[7] as u32),
            destination: ((b[8] as u32) << 24u32) | ((b[9] as u32) << 16u32) | ((b[10] as u32)
                << 8u32) | (b[11] as u32),
        },
    )
}

} // verus!
