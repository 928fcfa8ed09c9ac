//! NAT classification from STUN binding responses (RFC 3489 change
//! requests): which endpoints the server saw, and what several servers
//! together say about this node's NAT.
use vstd::prelude::*;
use stun_format::{Attr, SocketAddr as StunAddr};
use crate::addr::SockAddr;
use crate::nat_info::NatType;

verus! {

/// One attribute of a binding response, as this library reads it.
#[derive(Clone, Copy, Debug, PartialEq, Eq, Structural)]
pub enum StunAttr {
    Mapped(SockAddr),
    XorMapped(SockAddr),
    Changed(SockAddr),
    Other,
}

/// The binding request with a CHANGE-REQUEST attribute: type 0x0001,
/// length 8, the magic cookie, transaction id 1, then the attribute (type 3,
/// length 4) whose last byte carries 0x40 for a changed address and 0x20 for
/// a changed port.
pub open spec fn binding_request_of(change_ip: bool, change_port: bool) -> Seq<u8> {
    seq![0x00u8, 0x01, 0x00, 0x08, 0x21, 0x12, 0xa4, 0x42]
        + Seq::new(11, |i: int| 0u8)
        + seq![0x01u8, 0x00, 0x03, 0x00, 0x04, 0x00, 0x00, 0x00]
        + seq![(if change_ip { 0x40u8 } else { 0u8 }) | (if change_port { 0x20u8 } else { 0u8 })]
}

/// The attributes that `stun_format` reads from a message, in order.
pub uninterp spec fn stun_attrs_of(msg: Seq<u8>) -> Seq<StunAttr>;

/// Relies on `stun_format::MsgBuilder` (`typ`, `tid`, `add_attr`,
/// `as_bytes`) over a 28-byte buffer, which fits the header and the one
/// attribute; with the RFC 8489 feature `tid` writes the magic cookie before
/// the id, and `write_change_request` sets 0x40 / 0x20 in the last byte.
#[verifier::external_body]
pub(crate) fn binding_request(change_ip: bool, change_port: bool) -> (r: Vec<u8>)
    ensures
        r@ == binding_request_of(change_ip, change_port),
{
    let mut buf = [0u8; 28];
    let mut msg = stun_format::MsgBuilder::from(buf.as_mut_slice());
    let _ = msg.typ(stun_format::MsgType::BindingRequest);
    let _ = msg.tid(1);
    let _ = msg.add_attr(Attr::ChangeRequest { change_ip, change_port });
    msg.as_bytes().to_vec()
}

/// No attribute length that the attribute walk can read is 0xfffd or more.
/// The walk reads lengths at offsets 22, 26, 30, ... and rounds each up to a
/// multiple of four in 16-bit arithmetic, which those values overflow.
pub open spec fn stun_lengths_ok(b: Seq<u8>) -> bool {
    forall|k: int|
        0 <= k && 23 + 4 * k < b.len() ==> !(#[trigger] b[22 + 4 * k] == 0xff && b[23 + 4 * k] >= 0xfd)
}

pub fn stun_lengths_valid(b: &[u8]) -> (r: bool)
    ensures
        r == stun_lengths_ok(b@),
{
    let n = b.len();
    if n < 24 {
        return true;
    }
    let mut at: usize = 22;
    while at + 1 < n
        invariant
            n == b@.len(),
            at >= 22,
            at <= n + 3,
            (at - 22) % 4 == 0,
            forall|k: int|
                0 <= k && 22 + 4 * k < at && 23 + 4 * k < b@.len() ==> !(#[trigger] b@[22 + 4 * k] == 0xff
                    && b@[23 + 4 * k] >= 0xfd),
        decreases n + 3 - at,
    {
        if b[at] == 0xff && b[at + 1] >= 0xfd {
            assert(b@[22 + 4 * ((at - 22) / 4) as int] == 0xff);
            return false;
        }
        at = at + 4;
    }
    true
}

/// Relies on `stun_format::Msg::attrs_iter`: the attributes of the message,
/// in order, with their addresses converted; the result depends on the bytes
/// alone. The walk panics on an attribute length it cannot round up, which
/// `requires` leaves out.
#[verifier::external_body]
pub(crate) fn stun_attrs(buf: &[u8]) -> (r: Vec<StunAttr>)
    requires
        stun_lengths_ok(buf@),
    ensures
        r@ == stun_attrs_of(buf@),
{
    let conv = |x: StunAddr| match x {
        StunAddr::V4(ip, port) => SockAddr::V4 { ip: u32::from_be_bytes(ip), port },
        StunAddr::V6(ip, port) => SockAddr::V6 { ip6: u128::from_be_bytes(ip), port },
    };
    stun_format::Msg::from(buf).attrs_iter().map(|a| match a {
        Attr::MappedAddress(x) => StunAttr::Mapped(conv(x)),
        Attr::XorMappedAddress(x) => StunAttr::XorMapped(conv(x)),
        Attr::ChangedAddress(x) => StunAttr::Changed(conv(x)),
        _ => StunAttr::Other,
    }).collect()
}

/// Scanning state: the first mapped (or XOR-mapped) address and the first
/// changed address seen so far.
pub open spec fn scan(attrs: Seq<StunAttr>) -> (Option<SockAddr>, Option<SockAddr>)
    decreases attrs.len(),
{
    if attrs.len() == 0 {
        (None, None)
    } else {
        let (m, c) = scan(attrs.drop_last());
        let m2 = match attrs.last() {
            StunAttr::Mapped(a) => if m is None { Some(a) } else { m },
            StunAttr::XorMapped(a) => if m is None { Some(a) } else { m },
            _ => m,
        };
        let c2 = match attrs.last() {
            StunAttr::Changed(a) => if c is None { Some(a) } else { c },
            _ => c,
        };
        (m2, c2)
    }
}

/// The mapped and changed addresses of a response: both as soon as both are
/// known; else the mapped one, standing in for a missing changed one.
pub open spec fn spec_pick(attrs: Seq<StunAttr>) -> Option<(SockAddr, SockAddr)> {
    match scan(attrs) {
        (Some(m), Some(c)) => Some((m, c)),
        (Some(m), None) => Some((m, m)),
        _ => None,
    }
}

pub fn pick_addresses(attrs: &Vec<StunAttr>) -> (r: Option<(SockAddr, SockAddr)>)
    ensures
        r == spec_pick(attrs@),
{
    let mut mapped: Option<SockAddr> = None;
    let mut changed: Option<SockAddr> = None;
    let mut i: usize = 0;
    while i < attrs.len()
        invariant
            i <= attrs@.len(),
            (mapped, changed) == scan(attrs@.take(i as int)),
        decreases attrs@.len() - i,
    {
        proof {
            assert(attrs@.take(i + 1).drop_last() =~= attrs@.take(i as int));
        }
        match attrs[i] {
            StunAttr::Mapped(a) => if mapped.is_none() {
                mapped = Some(a);
            },
            StunAttr::XorMapped(a) => if mapped.is_none() {
                mapped = Some(a);
            },
            StunAttr::Changed(a) => if changed.is_none() {
                changed = Some(a);
            },
            StunAttr::Other => {},
        }
        i = i + 1;
    }
    assert(attrs@.take(attrs@.len() as int) =~= attrs@);
    match (mapped, changed) {
        (Some(m), Some(c)) => Some((m, c)),
        (Some(m), None) => Some((m, m)),
        _ => None,
    }
}

/// The mapped and changed addresses that a binding response reports; `None`
/// for a response with an attribute length that cannot be walked.
pub fn parse_response(buf: &[u8]) -> (r: Option<(SockAddr, SockAddr)>)
    ensures
        !stun_lengths_ok(buf@) ==> r is None,
        stun_lengths_ok(buf@) ==> r == spec_pick(stun_attrs_of(buf@)),
{
    if !stun_lengths_valid(buf) {
        return None;
    }
    let attrs = stun_attrs(buf);
    pick_addresses(&attrs)
}

/// The binding request that asks the server to answer from another address
/// and/or port.
pub fn binding_request_packet(change_ip: bool, change_port: bool) -> (r: Vec<u8>)
    ensures
        r@ == binding_request_of(change_ip, change_port),
{
    binding_request(change_ip, change_port)
}

/// What one server, or several together, say of this node's NAT.
#[derive(Clone, Debug)]
pub struct NatProbe {
    pub nat_type: NatType,
    pub public_ips: Vec<u32>,
    pub port_range: u16,
}

pub open spec fn v4_ip(a: SockAddr) -> Seq<u32> {
    match a {
        SockAddr::V4 { ip, .. } => seq![ip],
        SockAddr::V6 { .. } => Seq::empty(),
    }
}

/// `s` with `x` appended unless already there.
pub open spec fn add_distinct(s: Seq<u32>, x: Seq<u32>) -> Seq<u32>
    decreases x.len(),
{
    if x.len() == 0 {
        s
    } else {
        let t = add_distinct(s, x.drop_last());
        if t.contains(x.last()) {
            t
        } else {
            t.push(x.last())
        }
    }
}

pub open spec fn abs_diff(a: u16, b: u16) -> u16 {
    if a >= b {
        (a - b) as u16
    } else {
        (b - a) as u16
    }
}

/// The verdict of one server: `first` is the answer to the first request
/// (mapped and changed address), `second` the mapped address in the answer
/// from the changed address. Two different mapped IPv4 endpoints mean a
/// symmetric NAT; the port range is the distance between the two mapped
/// ports.
pub open spec fn spec_classify(first: Option<(SockAddr, SockAddr)>, second: Option<SockAddr>) -> (NatType, Seq<u32>, u16) {
    match first {
        None => (NatType::Cone, Seq::empty(), 0),
        Some((m1, _)) => match second {
            None => (NatType::Cone, v4_ip(m1), 0),
            Some(m2) => (
                if m2 is V4 && m1 != m2 {
                    NatType::Symmetric
                } else {
                    NatType::Cone
                },
                add_distinct(v4_ip(m1), v4_ip(m2)),
                abs_diff(m1.spec_port(), m2.spec_port()),
            ),
        },
    }
}

proof fn lemma_add_one(s: Seq<u32>, x: u32)
    ensures
        add_distinct(s, seq![x]) == (if s.contains(x) {
            s
        } else {
            s.push(x)
        }),
{
    let one = seq![x];
    assert(one.drop_last() =~= Seq::<u32>::empty());
    assert(one.last() == x);
    assert(add_distinct(s, Seq::<u32>::empty()) == s);
    assert(add_distinct(s, one.drop_last()) == s);
}

fn push_distinct(v: &mut Vec<u32>, x: u32)
    ensures
        final(v)@ == add_distinct(old(v)@, seq![x]),
{
    assert(seq![x].drop_last() =~= Seq::<u32>::empty());
    let mut found = false;
    let mut i: usize = 0;
    while i < v.len()
        invariant
            i <= v@.len(),
            found ==> v@.contains(x),
            !found ==> forall|k: int| 0 <= k < i ==> v@[k] != x,
        decreases v@.len() - i,
    {
        if v[i] == x {
            assert(v@[i as int] == x);
            found = true;
        }
        i = i + 1;
    }
    proof {
        lemma_add_one(old(v)@, x);
    }
    if !found {
        v.push(x);
    }
}

fn push_v4(v: &mut Vec<u32>, a: SockAddr)
    ensures
        final(v)@ == add_distinct(old(v)@, v4_ip(a)),
{
    match a {
        SockAddr::V4 { ip, .. } => push_distinct(v, ip),
        SockAddr::V6 { .. } => {},
    }
}

pub fn classify(first: Option<(SockAddr, SockAddr)>, second: Option<SockAddr>) -> (r: NatProbe)
    ensures
        (r.nat_type, r.public_ips@, r.port_range) == spec_classify(first, second),
{
    let mut ips: Vec<u32> = Vec::new();
    match first {
        None => NatProbe { nat_type: NatType::Cone, public_ips: ips, port_range: 0 },
        Some((m1, _)) => {
            push_v4(&mut ips, m1);
            proof {
                if let SockAddr::V4 { ip, .. } = m1 {
                    lemma_add_one(Seq::<u32>::empty(), ip);
                }
                assert(add_distinct(Seq::<u32>::empty(), Seq::<u32>::empty()) == Seq::<u32>::empty());
            }
            assert(ips@ =~= v4_ip(m1));
            match second {
                None => NatProbe { nat_type: NatType::Cone, public_ips: ips, port_range: 0 },
                Some(m2) => {
                    push_v4(&mut ips, m2);
                    let nat_type = if m2.is_ipv4() && m1 != m2 {
                        NatType::Symmetric
                    } else {
                        NatType::Cone
                    };
                    let p1 = m1.port();
                    let p2 = m2.port();
                    let port_range = if p1 >= p2 {
                        p1 - p2
                    } else {
                        p2 - p1
                    };
                    NatProbe { nat_type, public_ips: ips, port_range }
                },
            }
        },
    }
}

/// Several servers together: symmetric if any says so, the distinct public
/// addresses of all in order, the largest port range.
pub open spec fn spec_merge(rs: Seq<(NatType, Seq<u32>, u16)>) -> (NatType, Seq<u32>, u16)
    decreases rs.len(),
{
    if rs.len() == 0 {
        (NatType::Cone, Seq::empty(), 0)
    } else {
        let (t, ips, range) = spec_merge(rs.drop_last());
        let (t2, ips2, range2) = rs.last();
        (
            if t2 == NatType::Symmetric {
                NatType::Symmetric
            } else {
                t
            },
            add_distinct(ips, ips2),
            if range < range2 {
                range2
            } else {
                range
            },
        )
    }
}

pub open spec fn probe_view(p: NatProbe) -> (NatType, Seq<u32>, u16) {
    (p.nat_type, p.public_ips@, p.port_range)
}

proof fn lemma_add_distinct_step(s: Seq<u32>, x: Seq<u32>, j: int)
    requires
        0 <= j < x.len(),
    ensures
        x.take(j + 1).drop_last() == x.take(j),
        x.take(j + 1).last() == x[j],
{
    assert(x.take(j + 1).drop_last() =~= x.take(j));
}

pub fn merge(results: &Vec<NatProbe>) -> (r: NatProbe)
    ensures
        probe_view(r) == spec_merge(results@.map_values(|p: NatProbe| probe_view(p))),
{
    let ghost views = results@.map_values(|p: NatProbe| probe_view(p));
    let mut nat_type = NatType::Cone;
    let mut ips: Vec<u32> = Vec::new();
    let mut range: u16 = 0;
    let mut i: usize = 0;
    while i < results.len()
        invariant
            i <= results@.len(),
            views == results@.map_values(|p: NatProbe| probe_view(p)),
            (nat_type, ips@, range) == spec_merge(views.take(i as int)),
        decreases results@.len() - i,
    {
        let p = &results[i];
        proof {
            assert(views.take(i + 1).drop_last() =~= views.take(i as int));
        }
        if p.nat_type == NatType::Symmetric {
            nat_type = NatType::Symmetric;
        }
        let ghost before = ips@;
        let mut j: usize = 0;
        while j < p.public_ips.len()
            invariant
                j <= p.public_ips@.len(),
                ips@ == add_distinct(before, p.public_ips@.take(j as int)),
            decreases p.public_ips@.len() - j,
        {
            proof {
                lemma_add_distinct_step(before, p.public_ips@, j as int);
            }
            let x = p.public_ips[j];
            let ghost mid = ips@;
            push_distinct(&mut ips, x);
            proof {
                lemma_add_one(mid, x);
            }
            j = j + 1;
        }
        assert(p.public_ips@.take(p.public_ips@.len() as int) =~= p.public_ips@);
        if range < p.port_range {
            range = p.port_range;
        }
        i = i + 1;
    }
    assert(views.take(results@.len() as int) =~= views);
    NatProbe { nat_type, public_ips: ips, port_range: range }
}

} // verus!
