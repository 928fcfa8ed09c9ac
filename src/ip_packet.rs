//! Reading and rewriting an IPv4 datagram (and its ICMP or TCP payload)
//! that sits at offset `base` of a buffer.
use vstd::prelude::*;
use crate::checksum::{checksum_of, fill_checksum, put16, MAX_REGION};
use crate::packet::be_value;

verus! {

pub const IP_PROTO_ICMP: u8 = 1;

pub const IP_PROTO_TCP: u8 = 6;

pub const ICMP_ECHO_REPLY: u8 = 0;

pub const ICMP_ECHO_REQUEST: u8 = 8;

/// Length of the IPv4 header at `base`.
pub open spec fn ihl(b: Seq<u8>, base: int) -> int {
    ((b[base] & 0x0fu8) as int) * 4
}

/// A well-formed IPv4 header starts at `base`, inside a buffer short enough
/// to checksum.
pub open spec fn ipv4_ok(b: Seq<u8>, base: int) -> bool {
    &&& 0 <= base
    &&& b.len() >= base + 20
    &&& b.len() <= MAX_REGION
    &&& (b[base] >> 4u8) == 4u8
    &&& ihl(b, base) >= 20
    &&& base + ihl(b, base) <= b.len()
}

pub open spec fn ip_protocol(b: Seq<u8>, base: int) -> u8 {
    b[base + 9]
}

pub open spec fn ip_source(b: Seq<u8>, base: int) -> u32 {
    be_value(b[base + 12], b[base + 13], b[base + 14], b[base + 15])
}

pub open spec fn ip_destination(b: Seq<u8>, base: int) -> u32 {
    be_value(b[base + 16], b[base + 17], b[base + 18], b[base + 19])
}

/// `d` with the big-endian 32-bit value `v` written at `at`.
pub open spec fn put32(d: Seq<u8>, at: int, v: u32) -> Seq<u8> {
    d.update(at, (v >> 24u32) as u8).update(at + 1, (v >> 16u32) as u8).update(
        at + 2,
        (v >> 8u32) as u8,
    ).update(at + 3, v as u8)
}

pub fn ipv4_valid(b: &Vec<u8>, base: usize) -> (r: bool)
    ensures
        r == ipv4_ok(b@, base as int),
{
    if b.len() > MAX_REGION || b.len() < 20 || base > b.len() - 20 {
        return false;
    }
    let v = b[base];
    let h = ((v & 0x0fu8) as usize) * 4;
    (v >> 4u8) == 4u8 && h >= 20 && h <= b.len() - base
}

pub fn header_len(b: &Vec<u8>, base: usize) -> (r: usize)
    requires
        ipv4_ok(b@, base as int),
    ensures
        r == ihl(b@, base as int),
{
    ((b[base] & 0x0fu8) as usize) * 4
}

pub fn read32(b: &Vec<u8>, at: usize) -> (r: u32)
    requires
        at + 4 <= b@.len(),
    ensures
        r == be_value(b@[at as int], b@[at + 1], b@[at + 2], b@[at + 3]),
{
    let _n = b.len();
    ((b[at] as u32) << 24u32) | ((b[at + 1] as u32) << 16u32) | ((b[at + 2] as u32) << 8u32) | (b[at
        + 3] as u32)
}

pub fn read16(b: &Vec<u8>, at: usize) -> (r: u16)
    requires
        at + 2 <= b@.len(),
    ensures
        r == crate::checksum::get16(b@, at as int),
{
    let _n = b.len();
    ((b[at] as u16) << 8u16) | (b[at + 1] as u16)
}

pub fn write32(b: &mut Vec<u8>, at: usize, v: u32)
    requires
        at + 4 <= old(b)@.len(),
    ensures
        final(b)@ == put32(old(b)@, at as int, v),
{
    let _n = b.len();
    b.set(at, (v >> 24u32) as u8);
    b.set(at + 1, (v >> 16u32) as u8);
    b.set(at + 2, (v >> 8u32) as u8);
    b.set(at + 3, v as u8);
}

pub fn write16(b: &mut Vec<u8>, at: usize, v: u16)
    requires
        at + 2 <= old(b)@.len(),
    ensures
        final(b)@ == put16(old(b)@, at as int, v),
{
    let _n = b.len();
    b.set(at, (v >> 8u16) as u8);
    b.set(at + 1, v as u8);
}

/// Recomputes the IPv4 header checksum (bytes 10..12 of the header).
pub open spec fn with_ip_checksum(b: Seq<u8>, base: int) -> Seq<u8> {
    put16(
        b,
        base + 10,
        checksum_of(put16(b, base + 10, 0).subrange(base, base + ihl(b, base))),
    )
}

pub fn update_ip_checksum(b: &mut Vec<u8>, base: usize)
    requires
        ipv4_ok(old(b)@, base as int),
    ensures
        final(b)@ == with_ip_checksum(old(b)@, base as int),
{
    let h = header_len(b, base);
    fill_checksum(b, base, base + h, base + 10);
}

/// Recomputes the ICMP checksum (bytes 2..4 of the message), over the whole
/// message.
pub open spec fn with_icmp_checksum(b: Seq<u8>, base: int) -> Seq<u8> {
    let at = base + ihl(b, base);
    put16(b, at + 2, checksum_of(put16(b, at + 2, 0).subrange(at, b.len() as int)))
}

pub fn update_icmp_checksum(b: &mut Vec<u8>, base: usize)
    requires
        ipv4_ok(old(b)@, base as int),
        base + ihl(old(b)@, base as int) + 8 <= old(b)@.len(),
    ensures
        final(b)@ == with_icmp_checksum(old(b)@, base as int),
{
    let h = header_len(b, base);
    let n = b.len();
    fill_checksum(b, base + h, n, base + h + 2);
}

/// The TCP pseudo-header for a segment of `len` bytes between `src` and
/// `dst`.
pub open spec fn pseudo_header(src: u32, dst: u32, len: nat) -> Seq<u8> {
    put32(seq![0u8, 0, 0, 0], 0, src) + put32(seq![0u8, 0, 0, 0], 0, dst) + seq![
        0u8,
        IP_PROTO_TCP,
        (len / 256) as u8,
        (len % 256) as u8,
    ]
}

/// The TCP checksum of the segment `b[at..]`, taken with its checksum field
/// zeroed, under the pseudo-header of `src` and `dst`.
pub open spec fn tcp_checksum(b: Seq<u8>, at: int, src: u32, dst: u32) -> u16 {
    checksum_of(
        pseudo_header(src, dst, (b.len() - at) as nat) + put16(b, at + 16, 0).subrange(
            at,
            b.len() as int,
        ),
    )
}

pub open spec fn with_tcp_checksum(b: Seq<u8>, at: int, src: u32, dst: u32) -> Seq<u8> {
    put16(b, at + 16, tcp_checksum(b, at, src, dst))
}

pub fn update_tcp_checksum(b: &mut Vec<u8>, at: usize, src: u32, dst: u32)
    requires
        at + 20 <= old(b)@.len(),
        old(b)@.len() <= MAX_REGION,
    ensures
        final(b)@ == with_tcp_checksum(old(b)@, at as int, src, dst),
{
    let n = b.len();
    let seg = n - at;
    let mut tmp: Vec<u8> = Vec::new();
    let mut four: Vec<u8> = vec![0u8, 0u8, 0u8, 0u8];
    write32(&mut four, 0, src);
    tmp.append(&mut four);
    let mut four2: Vec<u8> = vec![0u8, 0u8, 0u8, 0u8];
    write32(&mut four2, 0, dst);
    tmp.append(&mut four2);
    tmp.push(0u8);
    tmp.push(IP_PROTO_TCP);
    tmp.push((seg / 256) as u8);
    tmp.push((seg % 256) as u8);
    assert(tmp@ =~= pseudo_header(src, dst, seg as nat));
    let ghost zeroed = put16(b@, at + 16, 0);
    let mut i: usize = at;
    while i < n
        invariant
            at <= i <= n,
            n == b@.len(),
            at + 20 <= n,
            zeroed == put16(b@, at + 16, 0),
            tmp@ == pseudo_header(src, dst, seg as nat) + zeroed.subrange(at as int, i as int),
            seg == n - at,
        decreases n - i,
    {
        let v: u8 = if i == at + 16 || i == at + 17 {
            0
        } else {
            b[i]
        };
        assert((0u16 >> 8u16) as u8 == 0u8) by (bit_vector);
        assert(0u16 as u8 == 0u8);
        assert(v == zeroed[i as int]);
        tmp.push(v);
        i = i + 1;
        assert(tmp@ =~= pseudo_header(src, dst, seg as nat) + zeroed.subrange(at as int, i as int));
    }
    let len = tmp.len();
    let c = internet_checksum_vec(&tmp, len);
    write16(b, at + 16, c);
}

fn internet_checksum_vec(t: &Vec<u8>, len: usize) -> (r: u16)
    requires
        len == t@.len(),
        len <= MAX_REGION + 12,
    ensures
        r == checksum_of(t@),
{
    let r = crate::checksum::internet_checksum(t.as_slice(), 0, len);
    assert(t@.subrange(0, len as int) =~= t@);
    r
}

} // verus!
