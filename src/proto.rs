//! Wire encoding of the overlay's service and punch messages, written field
//! by field through `protobuf`'s `CodedOutputStream`, as generated proto3
//! code does: fields in number order, default values left out, repeated
//! integers packed.
use vstd::prelude::*;
use crate::nat_info::{NatInfo, NatType};

verus! {

/// Largest field number the wire format admits.
pub const FIELD_MAX: u32 = 0x1fff_ffff;

/// Base-128 varint: low groups first, the high bit set on all bytes but the
/// last.
pub open spec fn varint(n: nat) -> Seq<u8>
    decreases n,
{
    if n < 128 {
        seq![n as u8]
    } else {
        seq![((n % 128) + 128) as u8] + varint(n / 128)
    }
}

/// The key of a field: its number and wire type.
pub open spec fn field_key(field: u32, wire_type: nat) -> Seq<u8> {
    varint(field as nat * 8 + wire_type)
}

pub open spec fn bool_field(field: u32, v: bool) -> Seq<u8> {
    field_key(field, 0) + varint(if v { 1 } else { 0 })
}

pub open spec fn uint32_field(field: u32, v: u32) -> Seq<u8> {
    field_key(field, 0) + varint(v as nat)
}

pub open spec fn bytes_field(field: u32, b: Seq<u8>) -> Seq<u8> {
    field_key(field, 2) + varint(b.len()) + b
}

pub open spec fn varints(vs: Seq<u32>) -> Seq<u8>
    decreases vs.len(),
{
    if vs.len() == 0 {
        Seq::empty()
    } else {
        varints(vs.drop_last()) + varint(vs.last() as nat)
    }
}

pub open spec fn packed_field(field: u32, vs: Seq<u32>) -> Seq<u8> {
    if vs.len() == 0 {
        Seq::empty()
    } else {
        field_key(field, 2) + varint(varints(vs).len()) + varints(vs)
    }
}

/// Relies on `protobuf::CodedOutputStream::write_bool` into a `Vec`, which
/// appends the field key (wire type 0) and the varint 0 or 1; writing into a
/// `Vec` does not fail, and the field number must lie in `1..=FIELD_MAX`.
#[verifier::external_body]
fn put_bool(out: &mut Vec<u8>, field: u32, v: bool)
    requires
        1 <= field <= FIELD_MAX,
    ensures
        final(out)@ == old(out)@ + bool_field(field, v),
{
    let mut os = protobuf::CodedOutputStream::vec(out);
    let _ = os.write_bool(field, v);
    let _ = os.flush();
}

/// Relies on `protobuf::CodedOutputStream::write_uint32` into a `Vec`: the
/// field key (wire type 0) and the varint of the value.
#[verifier::external_body]
fn put_uint32(out: &mut Vec<u8>, field: u32, v: u32)
    requires
        1 <= field <= FIELD_MAX,
    ensures
        final(out)@ == old(out)@ + uint32_field(field, v),
{
    let mut os = protobuf::CodedOutputStream::vec(out);
    let _ = os.write_uint32(field, v);
    let _ = os.flush();
}

/// Relies on `protobuf::CodedOutputStream::write_bytes` into a `Vec`: the
/// field key (wire type 2), the varint of the length, then the bytes.
#[verifier::external_body]
fn put_bytes(out: &mut Vec<u8>, field: u32, b: &[u8])
    requires
        1 <= field <= FIELD_MAX,
        b@.len() <= u32::MAX,
    ensures
        final(out)@ == old(out)@ + bytes_field(field, b@),
{
    let mut os = protobuf::CodedOutputStream::vec(out);
    let _ = os.write_bytes(field, b);
    let _ = os.flush();
}

/// Relies on `protobuf::CodedOutputStream::write_repeated_packed_uint32` into
/// a `Vec`: nothing for no values, else the field key (wire type 2), the
/// varint of the byte size of the values, then each value as a varint.
#[verifier::external_body]
fn put_packed_uint32(out: &mut Vec<u8>, field: u32, vs: &[u32])
    requires
        1 <= field <= FIELD_MAX,
        vs@.len() <= 0x100_0000,
    ensures
        final(out)@ == old(out)@ + packed_field(field, vs@),
{
    let mut os = protobuf::CodedOutputStream::vec(out);
    let _ = os.write_repeated_packed_uint32(field, vs);
    let _ = os.flush();
}

/// `HandshakeRequest { secret = 1: bool, version = 2: string }`.
pub open spec fn handshake_request_bytes(secret: bool, version: Seq<u8>) -> Seq<u8> {
    (if secret {
        bool_field(1, true)
    } else {
        Seq::empty()
    }) + (if version.len() > 0 {
        bytes_field(2, version)
    } else {
        Seq::empty()
    })
}

pub fn encode_handshake_request(secret: bool, version: &[u8]) -> (r: Vec<u8>)
    requires
        version@.len() <= u32::MAX,
    ensures
        r@ == handshake_request_bytes(secret, version@),
{
    let mut out: Vec<u8> = Vec::new();
    if secret {
        put_bool(&mut out, 1, true);
    }
    if version.len() > 0 {
        put_bytes(&mut out, 2, version);
    }
    assert(out@ =~= handshake_request_bytes(secret, version@));
    out
}

/// `SecretHandshakeRequest { token = 1: string, key = 2: bytes }`.
pub open spec fn secret_handshake_request_bytes(token: Seq<u8>, key: Seq<u8>) -> Seq<u8> {
    (if token.len() > 0 {
        bytes_field(1, token)
    } else {
        Seq::empty()
    }) + (if key.len() > 0 {
        bytes_field(2, key)
    } else {
        Seq::empty()
    })
}

pub fn encode_secret_handshake_request(token: &[u8], key: &[u8]) -> (r: Vec<u8>)
    requires
        token@.len() <= u32::MAX,
        key@.len() <= u32::MAX,
    ensures
        r@ == secret_handshake_request_bytes(token@, key@),
{
    let mut out: Vec<u8> = Vec::new();
    if token.len() > 0 {
        put_bytes(&mut out, 1, token);
    }
    if key.len() > 0 {
        put_bytes(&mut out, 2, key);
    }
    assert(out@ =~= secret_handshake_request_bytes(token@, key@));
    out
}

/// Wire value of a NAT type.
pub open spec fn nat_type_code(t: NatType) -> u32 {
    match t {
        NatType::Symmetric => 0,
        NatType::Cone => 1,
    }
}

/// The punch descriptor exchanged between peers, field numbers in
/// declaration order.
#[derive(Clone, Debug)]
pub struct PunchInfo {
    pub reply: bool,
    pub public_ip_list: Vec<u32>,
    pub public_port: u32,
    pub public_ports: Vec<u32>,
    pub public_port_range: u32,
    pub local_ip: u32,
    pub local_port: u32,
    pub tcp_port: u32,
    pub udp_ports: Vec<u32>,
    pub ipv6: Vec<u8>,
    pub ipv6_port: u32,
    pub nat_type: u32,
}

pub open spec fn opt_uint32(field: u32, v: u32) -> Seq<u8> {
    if v != 0 {
        uint32_field(field, v)
    } else {
        Seq::empty()
    }
}

pub open spec fn punch_info_bytes(p: PunchInfo) -> Seq<u8> {
    (if p.reply {
        bool_field(1, true)
    } else {
        Seq::empty()
    }) + packed_field(2, p.public_ip_list@) + opt_uint32(3, p.public_port) + packed_field(
        4,
        p.public_ports@,
    ) + opt_uint32(5, p.public_port_range) + opt_uint32(6, p.local_ip) + opt_uint32(
        7,
        p.local_port,
    ) + opt_uint32(8, p.tcp_port) + packed_field(9, p.udp_ports@) + (if p.ipv6@.len() > 0 {
        bytes_field(10, p.ipv6@)
    } else {
        Seq::empty()
    }) + opt_uint32(11, p.ipv6_port) + opt_uint32(12, p.nat_type)
}

/// Size limits under which a descriptor encodes.
pub open spec fn punch_info_encodable(p: PunchInfo) -> bool {
    &&& p.public_ip_list@.len() <= 0x100_0000
    &&& p.public_ports@.len() <= 0x100_0000
    &&& p.udp_ports@.len() <= 0x100_0000
    &&& p.ipv6@.len() <= u32::MAX
}

fn put_opt_uint32(out: &mut Vec<u8>, field: u32, v: u32)
    requires
        1 <= field <= FIELD_MAX,
    ensures
        final(out)@ == old(out)@ + opt_uint32(field, v),
{
    if v != 0 {
        put_uint32(out, field, v);
    } else {
        assert(old(out)@ + Seq::<u8>::empty() =~= old(out)@);
    }
}

pub fn encode_punch_info(p: &PunchInfo) -> (r: Vec<u8>)
    requires
        punch_info_encodable(*p),
    ensures
        r@ == punch_info_bytes(*p),
{
    let mut out: Vec<u8> = Vec::new();
    if p.reply {
        put_bool(&mut out, 1, true);
    }
    put_packed_uint32(&mut out, 2, p.public_ip_list.as_slice());
    put_opt_uint32(&mut out, 3, p.public_port);
    put_packed_uint32(&mut out, 4, p.public_ports.as_slice());
    put_opt_uint32(&mut out, 5, p.public_port_range);
    put_opt_uint32(&mut out, 6, p.local_ip);
    put_opt_uint32(&mut out, 7, p.local_port);
    put_opt_uint32(&mut out, 8, p.tcp_port);
    put_packed_uint32(&mut out, 9, p.udp_ports.as_slice());
    if p.ipv6.len() > 0 {
        put_bytes(&mut out, 10, p.ipv6.as_slice());
    }
    put_opt_uint32(&mut out, 11, p.ipv6_port);
    put_opt_uint32(&mut out, 12, p.nat_type);
    assert(out@ =~= punch_info_bytes(*p));
    out
}

pub open spec fn widen(v: Seq<u16>) -> Seq<u32> {
    Seq::new(v.len(), |i: int| v[i] as u32)
}

fn widen_ports(v: &Vec<u16>) -> (r: Vec<u32>)
    ensures
        r@ == widen(v@),
{
    let mut out: Vec<u32> = Vec::new();
    let mut i: usize = 0;
    while i < v.len()
        invariant
            i <= v@.len(),
            out@ == widen(v@).take(i as int),
        decreases v@.len() - i,
    {
        out.push(v[i] as u32);
        i = i + 1;
        assert(out@ =~= widen(v@).take(i as int));
    }
    assert(out@ =~= widen(v@));
    out
}

/// The sixteen bytes of an IPv6 address, most significant first.
pub open spec fn v6_octets(ip: u128) -> Seq<u8> {
    Seq::new(16, |i: int| (ip >> ((8 * (15 - i)) as u128)) as u8)
}

fn v6_bytes(ip: u128) -> (r: Vec<u8>)
    ensures
        r@ == v6_octets(ip),
{
    let mut out: Vec<u8> = Vec::new();
    let mut i: u32 = 0;
    while i < 16
        invariant
            i <= 16,
            out@ == v6_octets(ip).take(i as int),
        decreases 16 - i,
    {
        out.push((ip >> ((8 * (15 - i)) as u128)) as u8);
        i = i + 1;
        assert(out@ =~= v6_octets(ip).take(i as int));
    }
    assert(out@ =~= v6_octets(ip));
    out
}

/// `p` is the descriptor that advertises `info`: the first public port and
/// the first local port are repeated in the single-port fields kept for older
/// peers, and an absent local IPv4 is sent as 0.
pub open spec fn advertises(p: PunchInfo, info: NatInfo, reply: bool) -> bool {
    &&& p.reply == reply
    &&& p.public_ip_list@ == info.public_ips@
    &&& p.public_port == (if info.public_ports@.len() > 0 {
        info.public_ports@[0] as u32
    } else {
        0
    })
    &&& p.public_ports@ == widen(info.public_ports@)
    &&& p.public_port_range == info.public_port_range as u32
    &&& p.local_ip == (match info.local_ipv4 {
        Some(ip) => ip,
        None => 0,
    })
    &&& p.local_port == info.udp_ports@[0] as u32
    &&& p.tcp_port == info.tcp_port as u32
    &&& p.udp_ports@ == widen(info.udp_ports@)
    &&& p.ipv6@ == (match info.ipv6 {
        Some(ip) => v6_octets(ip),
        None => Seq::empty(),
    })
    &&& p.ipv6_port == (match info.ipv6 {
        Some(_) => info.udp_ports@[0] as u32,
        None => 0,
    })
    &&& p.nat_type == nat_type_code(info.nat_type)
}

impl PunchInfo {
    /// Builds the descriptor that advertises `info`.
    pub fn from_nat_info(info: &NatInfo, reply: bool) -> (r: PunchInfo)
        requires
            info.udp_ports@.len() > 0,
        ensures
            advertises(r, *info, reply),
    {
        let (ipv6, ipv6_port) = match info.ipv6 {
            Some(ip) => (v6_bytes(ip), info.udp_ports[0] as u32),
            None => (Vec::new(), 0),
        };
        PunchInfo {
            reply,
            public_ip_list: info.public_ips.clone(),
            public_port: if info.public_ports.len() > 0 {
                info.public_ports[0] as u32
            } else {
                0
            },
            public_ports: widen_ports(&info.public_ports),
            public_port_range: info.public_port_range as u32,
            local_ip: match info.local_ipv4 {
                Some(ip) => ip,
                None => 0,
            },
            local_port: info.udp_ports[0] as u32,
            tcp_port: info.tcp_port as u32,
            udp_ports: widen_ports(&info.udp_ports),
            ipv6,
            ipv6_port,
            nat_type: match info.nat_type {
                NatType::Symmetric => 0,
                NatType::Cone => 1,
            },
        }
    }
}

} // verus!
