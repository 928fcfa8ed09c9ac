//! The transparent TCP proxy: the table that maps an overlay source endpoint
//! to the real destination it asked for, the rewriting of datagrams in both
//! directions, and the half-close bookkeeping of each proxied pair.
use vstd::prelude::*;
use std::collections::HashMap;
use crate::checksum::{get16, put16};
use crate::ip_packet::{
    header_len,
    ihl,
    ip_destination,
    ipv4_ok,
    put32,
    read16,
    read32,
    update_ip_checksum,
    update_tcp_checksum,
    with_ip_checksum,
    with_tcp_checksum,
    write16,
    write32,
};

verus! {

broadcast use vstd::std_specs::hash::group_hash_axioms;

pub const NORMAL: u8 = 0b00;

pub const READ_CLOSED: u8 = 0b01;

pub const WRITE_CLOSED: u8 = 0b10;

pub const BOTH_CLOSED: u8 = 0b11;

/// Capacity of each direction's buffer.
pub const BUF_LEN: usize = 65536;

/// Reactor token of the listener.
pub const SERVER_TOKEN: usize = 0;

/// Reactor token of the wake-up sentinel.
pub const NOTIFY_TOKEN: usize = 1;

pub open spec fn spec_is_both_closed(state: u8) -> bool {
    state & BOTH_CLOSED == BOTH_CLOSED
}

pub open spec fn spec_is_read_closed(state: u8) -> bool {
    (state & READ_CLOSED == READ_CLOSED) || spec_is_both_closed(state)
}

pub open spec fn spec_is_write_closed(state: u8) -> bool {
    (state & WRITE_CLOSED == WRITE_CLOSED) || spec_is_both_closed(state)
}

pub fn is_both_closed(state: u8) -> (r: bool)
    ensures
        r == spec_is_both_closed(state),
{
    state & BOTH_CLOSED == BOTH_CLOSED
}

pub fn is_read_closed(state: u8) -> (r: bool)
    ensures
        r == spec_is_read_closed(state),
{
    (state & READ_CLOSED == READ_CLOSED) || is_both_closed(state)
}

pub fn is_write_closed(state: u8) -> (r: bool)
    ensures
        r == spec_is_write_closed(state),
{
    (state & WRITE_CLOSED == WRITE_CLOSED) || is_both_closed(state)
}

/// A descriptor the reactor can use as a token for a proxied socket.
pub fn token_usable(fd: usize) -> (r: bool)
    ensures
        r == (fd != SERVER_TOKEN && fd != NOTIFY_TOKEN),
{
    fd != SERVER_TOKEN && fd != NOTIFY_TOKEN
}

/// What the reactor observed on side 1 of a pair, after doing the reads and
/// writes the event allowed.
#[derive(Clone, Copy, Debug, PartialEq, Eq, Structural)]
pub struct PairEvent {
    /// Reading side 1 failed or hit end of stream.
    pub read_failed: bool,
    /// Passing bytes read from side 1 on to side 2 failed or wrote nothing.
    pub peer_write_failed: bool,
    /// Writing the buffered bytes to side 1 failed.
    pub write_failed: bool,
    /// After a write freed room, reading side 2 failed or hit end of stream.
    pub peer_read_failed: bool,
    /// Passing bytes read from side 2 on to side 1 failed or wrote nothing.
    pub back_write_failed: bool,
    /// The event says side 1 closed for reading.
    pub read_closed: bool,
    /// The event says side 1 closed for writing.
    pub write_closed: bool,
    /// The event carries an error.
    pub error: bool,
}

/// What to do after an event on side 1 of a pair.
#[derive(Clone, Copy, Debug, PartialEq, Eq, Structural)]
pub struct PairStep {
    pub state1: u8,
    pub state2: u8,
    /// Shut down writing on side 1 and reading on side 2.
    pub shut_write1_read2: bool,
    /// Shut down reading on side 1.
    pub shut_read1: bool,
    /// Shut down writing on side 2 (side 1 closed and nothing left to send).
    pub shut_write2: bool,
    /// Drop the pair and close both sockets.
    pub close: bool,
}

/// Whether a pair is finished: one side closed both ways with its buffer
/// drained, both sides closed for writing, or both closed for reading with
/// both buffers drained.
pub open spec fn spec_should_close(s1: u8, s2: u8, buf1_empty: bool, buf2_empty: bool) -> bool {
    (spec_is_both_closed(s1) && buf1_empty) || (spec_is_both_closed(s2) && buf2_empty) || (
    spec_is_write_closed(s1) && spec_is_write_closed(s2)) || (spec_is_read_closed(s1)
        && spec_is_read_closed(s2) && buf1_empty && buf2_empty)
}

pub open spec fn spec_state1(s1: u8, ev: PairEvent) -> u8 {
    let a = if ev.read_failed || ev.read_closed || ev.error {
        s1 | READ_CLOSED
    } else {
        s1
    };
    if ev.write_failed || ev.back_write_failed || ev.write_closed || ev.error {
        a | WRITE_CLOSED
    } else {
        a
    }
}

pub open spec fn spec_state2(s2: u8, ev: PairEvent) -> u8 {
    let a = if ev.peer_write_failed {
        s2 | WRITE_CLOSED
    } else {
        s2
    };
    if !ev.write_failed && ev.peer_read_failed {
        a | READ_CLOSED
    } else {
        a
    }
}

pub fn should_close(s1: u8, s2: u8, buf1_empty: bool, buf2_empty: bool) -> (r: bool)
    ensures
        r == spec_should_close(s1, s2, buf1_empty, buf2_empty),
{
    (is_both_closed(s1) && buf1_empty) || (is_both_closed(s2) && buf2_empty) || (is_write_closed(s1)
        && is_write_closed(s2)) || (is_read_closed(s1) && is_read_closed(s2) && buf1_empty
        && buf2_empty)
}

/// The bookkeeping of one event on side 1 of a pair whose states were `s1`
/// and `s2`; `buf1_empty` and `buf2_empty` tell whether the bytes read from
/// side 1 (resp. side 2) are all delivered.
pub fn pair_step(s1: u8, s2: u8, ev: PairEvent, buf1_empty: bool, buf2_empty: bool) -> (r: PairStep)
    ensures
        r.state1 == spec_state1(s1, ev),
        r.state2 == spec_state2(s2, ev),
        r.shut_write1_read2 == spec_is_write_closed(r.state1),
        r.shut_read1 == spec_is_read_closed(r.state1),
        r.shut_write2 == (spec_is_read_closed(r.state1) && buf1_empty),
        r.close == spec_should_close(r.state1, r.state2, buf1_empty, buf2_empty),
{
    let r1: u8 = if ev.read_failed || ev.read_closed || ev.error {
        s1 | READ_CLOSED
    } else {
        s1
    };
    let state1: u8 = if ev.write_failed || ev.back_write_failed || ev.write_closed || ev.error {
        r1 | WRITE_CLOSED
    } else {
        r1
    };
    let w2: u8 = if ev.peer_write_failed {
        s2 | WRITE_CLOSED
    } else {
        s2
    };
    let state2: u8 = if !ev.write_failed && ev.peer_read_failed {
        w2 | READ_CLOSED
    } else {
        w2
    };
    let w = is_write_closed(state1);
    let rd = is_read_closed(state1);
    PairStep {
        state1,
        state2,
        shut_write1_read2: w,
        shut_read1: rd,
        shut_write2: rd && buf1_empty,
        close: should_close(state1, state2, buf1_empty, buf2_empty),
    }
}

/// Whether side 1 may be read: its bytes not yet delivered fill less than
/// the buffer.
pub fn may_read(len: usize) -> (r: bool)
    ensures
        r == (len < BUF_LEN),
{
    len < BUF_LEN
}

/// Whether a read of `n` bytes ends the stream (end of stream reads 0).
pub fn read_ends(n: usize) -> (r: bool)
    ensures
        r == (n == 0),
{
    n == 0
}

/// Keeps what side 2 did not take of a chunk read from side 1. Bytes are
/// written through only when nothing is waiting, so order is kept: what
/// was waiting, then the rest of the chunk.
pub fn forward(mid: &mut Vec<u8>, chunk: &[u8], accepted: usize)
    requires
        accepted <= chunk@.len(),
        old(mid)@.len() > 0 ==> accepted == 0,
    ensures
        final(mid)@ == old(mid)@ + chunk@.subrange(accepted as int, chunk@.len() as int),
{
    let mut i: usize = accepted;
    while i < chunk.len()
        invariant
            accepted <= i <= chunk@.len(),
            mid@ == old(mid)@ + chunk@.subrange(accepted as int, i as int),
        decreases chunk@.len() - i,
    {
        mid.push(chunk[i]);
        i = i + 1;
        assert(mid@ =~= old(mid)@ + chunk@.subrange(accepted as int, i as int));
    }
}

/// Drops the first `written` buffered bytes, which side 1 has taken.
pub fn drain(mid: &mut Vec<u8>, written: usize)
    requires
        written <= old(mid)@.len(),
    ensures
        final(mid)@ == old(mid)@.subrange(written as int, old(mid)@.len() as int),
{
    let mut rest: Vec<u8> = Vec::new();
    let mut i: usize = written;
    while i < mid.len()
        invariant
            written <= i <= mid@.len(),
            mid@ == old(mid)@,
            rest@ == old(mid)@.subrange(written as int, i as int),
        decreases mid@.len() - i,
    {
        rest.push(mid[i]);
        i = i + 1;
        assert(rest@ =~= old(mid)@.subrange(written as int, i as int));
    }
    *mid = rest;
}

/// Bytes travel through a pair in order and none is lost: after a chunk is
/// read, what went straight through followed by what waits equals what
/// waited before followed by the chunk; after a write, what was written
/// followed by what still waits equals what waited before.
pub proof fn lemma_bytes_in_order(mid: Seq<u8>, chunk: Seq<u8>, accepted: nat, written: nat)
    requires
        accepted <= chunk.len(),
        mid.len() > 0 ==> accepted == 0,
        written <= mid.len(),
    ensures
        mid.len() > 0 ==> mid + chunk.subrange(accepted as int, chunk.len() as int) == mid + chunk,
        mid.len() == 0 ==> chunk.subrange(0, accepted as int) + (mid + chunk.subrange(
            accepted as int,
            chunk.len() as int,
        )) == chunk,
        mid.subrange(0, written as int) + mid.subrange(written as int, mid.len() as int) == mid,
{
    assert(mid.subrange(0, written as int) + mid.subrange(written as int, mid.len() as int) =~= mid);
    if mid.len() == 0 {
        assert(chunk.subrange(0, accepted as int) + (mid + chunk.subrange(accepted as int, chunk.len() as int)) =~= chunk);
    } else {
        assert(chunk.subrange(0, chunk.len() as int) =~= chunk);
    }
}

/// Once both sides have closed for reading and every byte read was
/// delivered, or both have closed for writing, the pair is removed.
pub proof fn lemma_half_closed_pair_removed(s1: u8, s2: u8, buf1_empty: bool, buf2_empty: bool)
    ensures
        spec_is_read_closed(s1) && spec_is_read_closed(s2) && buf1_empty && buf2_empty
            ==> spec_should_close(s1, s2, buf1_empty, buf2_empty),
        spec_is_write_closed(s1) && spec_is_write_closed(s2) ==> spec_should_close(
            s1,
            s2,
            buf1_empty,
            buf2_empty,
        ),
        spec_is_read_closed(s1 | READ_CLOSED) && spec_is_write_closed(s1 | WRITE_CLOSED),
{
    assert((s1 | 1u8) & 1u8 == 1u8) by (bit_vector);
    assert((s1 | 2u8) & 2u8 == 2u8) by (bit_vector);
}

/// An IPv4 endpoint as a map key.
pub open spec fn endpoint_key(ip: u32, port: u16) -> u64 {
    ((ip as u64) * 65536 + (port as u64)) as u64
}

fn endpoint(ip: u32, port: u16) -> (r: u64)
    ensures
        r == endpoint_key(ip, port),
{
    (ip as u64) * 65536 + (port as u64)
}

pub fn endpoint_ip(k: u64) -> (r: u32)
    requires
        k < 0x1_0000_0000_0000,
    ensures
        r == k / 65536,
{
    (k / 65536) as u32
}

pub fn endpoint_port(k: u64) -> (r: u16)
    ensures
        r == k % 65536,
{
    (k % 65536) as u16
}

/// Offset of the TCP segment of the IPv4 datagram at `base`.
pub open spec fn tcp_at(b: Seq<u8>, base: int) -> int {
    base + ihl(b, base)
}

/// The IPv4 datagram at `base` carries a TCP header.
pub open spec fn tcp_ok(b: Seq<u8>, base: int) -> bool {
    ipv4_ok(b, base) && tcp_at(b, base) + 20 <= b.len()
}

/// The datagram at `base` sent to the listener at `destination:port`
/// instead, with both checksums recomputed.
pub open spec fn redirected(b: Seq<u8>, base: int, source: u32, destination: u32, port: u16) -> Seq<u8> {
    let at = tcp_at(b, base);
    let b1 = put16(b, at + 2, port);
    let b2 = with_tcp_checksum(b1, at, source, destination);
    let b3 = put32(b2, base + 16, destination);
    with_ip_checksum(b3, base)
}

/// The table of proxied flows and the port of the local listener.
pub struct TcpProxy {
    pub port: u16,
    pub nat_map: HashMap<u64, u64>,
}

impl TcpProxy {
    /// Every recorded destination is an endpoint key.
    pub open spec fn wf(&self) -> bool {
        forall|k: u64| #[trigger] self.nat_map@.contains_key(k) ==> self.nat_map@[k] < 0x1_0000_0000_0000u64
    }

    pub fn new(port: u16) -> (r: TcpProxy)
        ensures
            r.wf(),
            r.port == port,
            r.nat_map@ == Map::<u64, u64>::empty(),
    {
        TcpProxy { port, nat_map: HashMap::new() }
    }

    /// The real destination recorded for overlay endpoint `ip:port`.
    pub fn lookup(&self, ip: u32, port: u16) -> (r: Option<(u32, u16)>)
        requires
            self.wf(),
        ensures
            r is Some <==> self.nat_map@.contains_key(endpoint_key(ip, port)),
            r is Some ==> endpoint_key((r->0).0, (r->0).1) == self.nat_map@[endpoint_key(ip, port)],
    {
        let k = endpoint(ip, port);
        match self.nat_map.get(&k) {
            Some(v) => {
                let v = *v;
                Some((endpoint_ip(v), endpoint_port(v)))
            },
            None => None,
        }
    }

    /// Inbound: a TCP datagram from `source` that this node forwards to its
    /// real destination is sent to the local listener instead (destination
    /// port = listener port, destination address = `destination`, both
    /// checksums recomputed) and the flow is recorded. The datagram then goes
    /// on to the virtual interface.
    pub fn recv_handle(&mut self, b: &mut Vec<u8>, base: usize, source: u32, destination: u32)
        requires
            old(self).wf(),
            tcp_ok(old(b)@, base as int),
        ensures
            final(self).wf(),
            final(b)@ == redirected(old(b)@, base as int, source, destination, old(self).port),
            final(self).port == old(self).port,
            final(self).nat_map@ == old(self).nat_map@.insert(
                endpoint_key(source, get16(old(b)@, tcp_at(old(b)@, base as int))),
                endpoint_key(
                    ip_destination(old(b)@, base as int),
                    get16(old(b)@, tcp_at(old(b)@, base as int) + 2),
                ),
            ),
    {
        let dest_ip = read32(b, base + 16);
        let at = base + header_len(b, base);
        let source_port = read16(b, at);
        let dest_port = read16(b, at + 2);
        write16(b, at + 2, self.port);
        update_tcp_checksum(b, at, source, destination);
        write32(b, base + 16, destination);
        proof {
            lemma_ihl_kept(old(b)@, b@, base as int);
        }
        update_ip_checksum(b, base);
        let k = endpoint(source, source_port);
        let v = endpoint(dest_ip, dest_port);
        self.nat_map.insert(k, v);
    }

    /// Outbound: a TCP datagram to a recorded overlay endpoint leaves with
    /// the real destination it asked for as its source.
    pub fn send_handle(&self, b: &mut Vec<u8>, base: usize)
        requires
            self.wf(),
            tcp_ok(old(b)@, base as int),
        ensures
            ({
                let at = tcp_at(old(b)@, base as int);
                let dst = ip_destination(old(b)@, base as int);
                let key = endpoint_key(dst, get16(old(b)@, at + 2));
                if self.nat_map@.contains_key(key) {
                    let src_ip = (self.nat_map@[key] / 65536) as u32;
                    let src_port = (self.nat_map@[key] % 65536) as u16;
                    let b1 = put16(old(b)@, at, src_port);
                    let b2 = with_tcp_checksum(b1, at, src_ip, dst);
                    let b3 = put32(b2, base + 12, src_ip);
                    final(b)@ == with_ip_checksum(b3, base as int)
                } else {
                    final(b)@ == old(b)@
                }
            }),
    {
        let dest_ip = read32(b, base + 16);
        let at = base + header_len(b, base);
        let dest_port = read16(b, at + 2);
        if let Some((src_ip, src_port)) = self.lookup(dest_ip, dest_port) {
            write16(b, at, src_port);
            update_tcp_checksum(b, at, src_ip, dest_ip);
            write32(b, base + 12, src_ip);
            proof {
                lemma_ihl_kept(old(b)@, b@, base as int);
            }
            update_ip_checksum(b, base);
        }
    }
}

/// Once a flow from `src:sport` to `dst:dport` has been redirected, a reply
/// addressed to `src:sport` is found in the table and leaves with
/// `dst:dport` as its source: each end sees the other's real endpoint.
pub proof fn lemma_reply_restores_destination(m: Map<u64, u64>, src: u32, sport: u16, dst: u32, dport: u16)
    ensures
        ({
            let k = endpoint_key(src, sport);
            let m2 = m.insert(k, endpoint_key(dst, dport));
            &&& m2.contains_key(k)
            &&& m2[k] < 0x1_0000_0000_0000u64
            &&& (m2[k] / 65536) as u32 == dst
            &&& (m2[k] % 65536) as u16 == dport
        }),
{
    let v = endpoint_key(dst, dport);
    assert(v == (dst as u64) * 65536 + (dport as u64));
    assert(v / 65536 == dst as u64 && v % 65536 == dport as u64) by (nonlinear_arith)
        requires v == (dst as u64) * 65536 + (dport as u64), dport < 65536;
}

/// Rewrites past the first byte of an IPv4 header keep it well-formed.
proof fn lemma_ihl_kept(a: Seq<u8>, b: Seq<u8>, base: int)
    requires
        ipv4_ok(a, base),
        a.len() == b.len(),
        a[base] == b[base],
    ensures
        ipv4_ok(b, base),
        ihl(a, base) == ihl(b, base),
{
}

} // verus!
