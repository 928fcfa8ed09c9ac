//! The hole-punching planner: from a peer's NAT profile, the ordered list of
//! connection attempts and datagrams that open a direct path to it.
use vstd::prelude::*;
use std::collections::HashMap;
use crate::addr::SockAddr;
use crate::nat_info::{NatInfo, NatType, PunchModel};
use crate::rng::{random_in, shuffle};

verus! {

broadcast use vstd::std_specs::hash::group_hash_axioms;

/// Ports tried around a symmetric peer's last known port.
pub const FINE_MAX: usize = 60;

/// Lower bound of the number of ports tried across the whole port space.
pub const BROAD_MIN: usize = 600;

/// Upper bound (exclusive) of the number of ports tried across the whole
/// port space.
pub const BROAD_MAX: usize = 800;

/// Number of ports in the port space.
pub const PORT_COUNT: usize = 65535;

/// How one step reaches its address.
#[derive(Clone, Copy, Debug, PartialEq, Eq, Structural)]
pub enum StepKind {
    /// A TCP connect with a 3-second timeout; on success the payload is the
    /// first write.
    TcpConnect,
    /// One datagram from main UDP socket `channel`.
    Udp,
    /// One datagram from every main UDP socket.
    UdpAll,
}

/// One attempt of a punch round. When `stop_on_success` holds and the attempt
/// succeeds, the round ends there.
#[derive(Clone, Copy, Debug, PartialEq, Eq, Structural)]
pub struct PunchStep {
    pub kind: StepKind,
    pub channel: usize,
    pub addr: SockAddr,
    pub stop_on_success: bool,
}

pub open spec fn step(kind: StepKind, channel: usize, addr: SockAddr, stop: bool) -> PunchStep {
    PunchStep { kind, channel, addr, stop_on_success: stop }
}

pub open spec fn opt_step(o: Option<SockAddr>, kind: StepKind, channel: usize, stop: bool) -> Seq<
    PunchStep,
> {
    match o {
        Some(a) => seq![step(kind, channel, a, stop)],
        None => Seq::empty(),
    }
}

/// TCP attempts: the peer's local IPv6 and IPv4 endpoints, then its public
/// one when it is a cone with exactly one public address.
pub open spec fn tcp_plan(is_tcp: bool, info: NatInfo) -> Seq<PunchStep> {
    if is_tcp && info.tcp_port != 0 {
        opt_step(info.spec_local_tcp_ipv6addr(), StepKind::TcpConnect, 0, true) + opt_step(
            info.spec_local_tcp_ipv4addr(),
            StepKind::TcpConnect,
            0,
            true,
        ) + if info.nat_type == NatType::Cone && info.public_ips@.len() == 1 {
            seq![
                step(
                    StepKind::TcpConnect,
                    0,
                    SockAddr::V4 { ip: info.public_ips@[0], port: info.tcp_port },
                    true,
                ),
            ]
        } else {
            Seq::empty()
        }
    } else {
        Seq::empty()
    }
}

/// One datagram per channel below `n` to the peer's local IPv4 endpoint.
pub open spec fn local_v4_plan(info: NatInfo, n: nat) -> Seq<PunchStep>
    decreases n,
{
    if n == 0 {
        Seq::empty()
    } else {
        local_v4_plan(info, (n - 1) as nat) + opt_step(
            info.spec_local_udp_ipv4addr((n - 1) as usize),
            StepKind::Udp,
            (n - 1) as usize,
            false,
        )
    }
}

/// One datagram per channel below `n` to the peer's local IPv6 endpoint.
pub open spec fn local_v6_plan(info: NatInfo, n: nat, stop: bool) -> Seq<PunchStep>
    decreases n,
{
    if n == 0 {
        Seq::empty()
    } else {
        local_v6_plan(info, (n - 1) as nat, stop) + opt_step(
            info.spec_local_udp_ipv6addr((n - 1) as usize),
            StepKind::Udp,
            (n - 1) as usize,
            stop,
        )
    }
}

/// One step to `port` at each address of `ips`, in order; with `skip_zero`,
/// none when the port or the address is zero.
pub open spec fn row(ips: Seq<u32>, port: u16, kind: StepKind, channel: usize, skip_zero: bool) -> Seq<
    PunchStep,
>
    decreases ips.len(),
{
    if ips.len() == 0 {
        Seq::empty()
    } else {
        row(ips.drop_last(), port, kind, channel, skip_zero) + if skip_zero && (port == 0
            || ips.last() == 0) {
            Seq::empty()
        } else {
            seq![step(kind, channel, SockAddr::V4 { ip: ips.last(), port }, false)]
        }
    }
}

/// For each channel below `m`, a row to that channel's public port.
pub open spec fn cone_rows(info: NatInfo, m: nat) -> Seq<PunchStep>
    decreases m,
{
    if m == 0 {
        Seq::empty()
    } else {
        cone_rows(info, (m - 1) as nat) + row(
            info.public_ips@,
            info.public_ports@[m - 1],
            StepKind::Udp,
            (m - 1) as usize,
            true,
        )
    }
}

pub open spec fn min_nat(a: nat, b: nat) -> nat {
    if a < b {
        a
    } else {
        b
    }
}

/// Datagrams to a cone peer's public endpoints. A symmetric local node sends
/// each from every socket, and only to the first public port.
pub open spec fn cone_plan(info: NatInfo, n: nat, is_cone: bool) -> Seq<PunchStep> {
    let m = min_nat(info.public_ports@.len(), n);
    if is_cone {
        cone_rows(info, m)
    } else if m > 0 {
        row(info.public_ips@, info.public_ports@[0], StepKind::UdpAll, 0, true)
    } else {
        Seq::empty()
    }
}

/// Every (port, address) pair, ports outermost, as datagrams from channel 0.
pub open spec fn sym_pairs(ports: Seq<u16>, ips: Seq<u32>) -> Seq<PunchStep>
    decreases ports.len(),
{
    if ports.len() == 0 {
        Seq::empty()
    } else {
        sym_pairs(ports.drop_last(), ips) + row(ips, ports.last(), StepKind::Udp, 0, false)
    }
}

/// The pairs sent under a budget of `max` counted attempts: the last one
/// counted is not sent.
pub open spec fn sym_steps(ports: Seq<u16>, ips: Seq<u32>, max: nat) -> Seq<PunchStep> {
    sym_pairs(ports, ips).take(min_nat((max - 1) as nat, ports.len() * ips.len()) as int)
}

/// Index of the port at which the budget ran out, or the number of ports.
pub open spec fn sym_stop(ports: Seq<u16>, ips: Seq<u32>, max: nat) -> nat {
    if ips.len() > 0 && ports.len() * ips.len() >= max {
        ((max - 1) as nat / ips.len()) as nat
    } else {
        ports.len()
    }
}

/// The peer's first public port, or 0.
pub open spec fn first_port(info: NatInfo) -> u16 {
    if info.public_ports@.len() > 0 {
        info.public_ports@[0]
    } else {
        0
    }
}

pub open spec fn fine_low(port: u16, range: u16) -> int {
    if port > range {
        port - range
    } else {
        1
    }
}

pub open spec fn fine_high(port: u16, range: u16) -> int {
    if port + range > 65535 {
        65535
    } else {
        port + range
    }
}

/// The ports within `range` of `port`, clamped to `1..=65535`, ascending.
pub open spec fn fine_range(port: u16, range: u16) -> Seq<u16> {
    let lo = fine_low(port, range);
    let hi = fine_high(port, range);
    Seq::new(if hi >= lo { (hi - lo + 1) as nat } else { 0 }, |i: int| (lo + i) as u16)
}

/// Datagrams to a shuffled selection `fine` of the ports near the peer's
/// port, sent only when its port range estimate is small.
pub open spec fn fine_plan(info: NatInfo, fine: Seq<u16>) -> Seq<PunchStep> {
    if (info.public_port_range as int) < 3 * FINE_MAX {
        sym_steps(fine.take(min_nat(fine.len(), FINE_MAX as nat) as int), info.public_ips@, FINE_MAX as nat)
    } else {
        Seq::empty()
    }
}

/// All the ports 1..=65535, ascending.
pub open spec fn all_ports() -> Seq<u16> {
    Seq::new(PORT_COUNT as nat, |i: int| (i + 1) as u16)
}

/// Per-peer punch state: a shuffled port vector walked across rounds.
pub struct Punch {
    pub port_vec: Vec<u16>,
    pub port_index: HashMap<u32, usize>,
    pub punch_model: PunchModel,
    pub is_tcp: bool,
}

impl Punch {
    pub open spec fn wf(&self) -> bool {
        &&& 0 < self.port_vec@.len() <= PORT_COUNT
        &&& forall|k: u32|
            #[trigger] self.port_index@.contains_key(k) ==> self.port_index@[k]
                < self.port_vec@.len()
    }

    /// Where the broad phase for `id` resumes.
    pub open spec fn spec_start(&self, id: u32) -> nat {
        if self.port_index@.contains_key(id) {
            self.port_index@[id] as nat
        } else {
            0
        }
    }

    pub open spec fn spec_end(&self, id: u32, k2: nat) -> nat {
        min_nat(self.spec_start(id) + k2, self.port_vec@.len())
    }

    /// The ports of the broad phase for `id` under budget `k2`.
    pub open spec fn broad_ports(&self, id: u32, k2: nat) -> Seq<u16> {
        self.port_vec@.subrange(self.spec_start(id) as int, self.spec_end(id, k2) as int)
    }

    /// Where the next broad phase for `id` resumes.
    pub open spec fn spec_next(&self, id: u32, info: NatInfo, k2: nat) -> usize {
        let i = self.spec_start(id) + sym_stop(self.broad_ports(id, k2), info.public_ips@, k2);
        if i >= self.port_vec@.len() {
            0
        } else {
            i as usize
        }
    }

    /// The whole round.
    pub open spec fn spec_plan(
        &self,
        need_punch: bool,
        id: u32,
        info: NatInfo,
        channel_num: usize,
        is_cone: bool,
        fine: Seq<u16>,
        k2: nat,
    ) -> Seq<PunchStep> {
        if !need_punch {
            Seq::empty()
        } else {
            tcp_plan(self.is_tcp, info) + local_v4_plan(info, channel_num as nat) + (if self.punch_model
                != PunchModel::IPv4 {
                local_v6_plan(info, channel_num as nat, self.punch_model == PunchModel::IPv6)
            } else {
                Seq::empty()
            }) + match info.nat_type {
                NatType::Symmetric => fine_plan(info, fine) + sym_steps(
                    self.broad_ports(id, k2),
                    info.public_ips@,
                    k2,
                ),
                NatType::Cone => cone_plan(info, channel_num as nat, is_cone),
            }
        }
    }

    /// The state after the round.
    pub open spec fn spec_after(&self, need_punch: bool, id: u32, info: NatInfo, k2: nat) -> Map<
        u32,
        usize,
    > {
        if need_punch && info.nat_type == NatType::Symmetric {
            self.port_index@.insert(id, self.spec_next(id, info, k2))
        } else {
            self.port_index@
        }
    }

    /// A planner over a shuffled vector of all ports.
    pub fn new(punch_model: PunchModel, is_tcp: bool) -> (r: Punch)
        ensures
            r.wf(),
            r.port_vec@.to_multiset() == all_ports().to_multiset(),
            r.port_vec@.len() == PORT_COUNT,
            r.port_index@ == Map::<u32, usize>::empty(),
            r.punch_model == punch_model,
            r.is_tcp == is_tcp,
    {
        let mut port_vec: Vec<u16> = Vec::new();
        let mut p: usize = 1;
        while p <= PORT_COUNT
            invariant
                1 <= p <= PORT_COUNT + 1,
                port_vec@ == all_ports().take(p - 1),
            decreases PORT_COUNT + 1 - p,
        {
            port_vec.push(p as u16);
            p = p + 1;
            assert(port_vec@ =~= all_ports().take(p - 1));
        }
        assert(all_ports().take(PORT_COUNT as int) =~= all_ports());
        shuffle(&mut port_vec);
        Punch { port_vec, port_index: HashMap::new(), punch_model, is_tcp }
    }

    /// Plans one round against peer `id` with profile `info`. `need_punch`
    /// tells whether a direct route is still missing, `channel_num` and
    /// `is_cone` describe the local sockets and NAT; `fine` is the order in
    /// which ports near the peer's port are tried and `k2` the budget of the
    /// broad phase. Without `need_punch` nothing is sent.
    pub fn plan(
        &mut self,
        need_punch: bool,
        id: u32,
        info: &NatInfo,
        channel_num: usize,
        is_cone: bool,
        fine: &Vec<u16>,
        k2: usize,
    ) -> (r: Vec<PunchStep>)
        requires
            old(self).wf(),
            1 <= k2 <= PORT_COUNT,
        ensures
            final(self).wf(),
            r@ == old(self).spec_plan(need_punch, id, *info, channel_num, is_cone, fine@, k2 as nat),
            final(self).port_index@ == old(self).spec_after(need_punch, id, *info, k2 as nat),
            final(self).port_vec@ == old(self).port_vec@,
            final(self).punch_model == old(self).punch_model,
            final(self).is_tcp == old(self).is_tcp,
    {
        let mut out: Vec<PunchStep> = Vec::new();
        if !need_punch {
            return out;
        }
        push_tcp(&mut out, self.is_tcp, info);
        push_local_v4(&mut out, info, channel_num);
        if self.punch_model != PunchModel::IPv4 {
            push_local_v6(&mut out, info, channel_num, self.punch_model == PunchModel::IPv6);
        } else {
            assert(out@ =~= out@ + Seq::<PunchStep>::empty());
        }
        let ghost base = out@;
        match info.nat_type {
            NatType::Symmetric => {
                let range = info.public_port_range;
                if (range as usize) < 3 * FINE_MAX {
                    let k = if fine.len() < FINE_MAX {
                        fine.len()
                    } else {
                        FINE_MAX
                    };
                    punch_symmetric(fine, 0, k, &info.public_ips, FINE_MAX, &mut out);
                    assert(fine@.subrange(0, k as int) =~= fine@.take(k as int));
                } else {
                    assert(out@ =~= base + Seq::<PunchStep>::empty());
                }
                let ghost mid = out@;
                let start: usize = match self.port_index.get(&id) {
                    Some(v) => *v,
                    None => 0,
                };
                let len = self.port_vec.len();
                let end = if start + k2 > len {
                    len
                } else {
                    start + k2
                };
                let used = punch_symmetric(&self.port_vec, start, end, &info.public_ips, k2, &mut out);
                let next = if start + used >= len {
                    0
                } else {
                    start + used
                };
                self.port_index.insert(id, next);
                assert(out@ =~= base + (fine_plan(*info, fine@) + sym_steps(
                    old(self).broad_ports(id, k2 as nat),
                    info.public_ips@,
                    k2 as nat,
                )));
            },
            NatType::Cone => {
                push_cone(&mut out, info, channel_num, is_cone);
            },
        }
        out
    }

    /// Plans one round, drawing the order of the ports near a symmetric
    /// peer's port and the budget of the broad phase at random.
    pub fn punch(
        &mut self,
        need_punch: bool,
        id: u32,
        info: &NatInfo,
        channel_num: usize,
        is_cone: bool,
    ) -> (r: Vec<PunchStep>)
        requires
            old(self).wf(),
        ensures
            final(self).wf(),
            !need_punch ==> r@.len() == 0 && final(self).port_index@ == old(self).port_index@,
            exists|fine: Seq<u16>, k2: nat|
                BROAD_MIN <= k2 < BROAD_MAX && fine.to_multiset() == fine_range(first_port(*info), info.public_port_range).to_multiset()
                    && r@ == old(self).spec_plan(need_punch, id, *info, channel_num, is_cone, fine, k2)
                    && final(self).port_index@ == old(self).spec_after(need_punch, id, *info, k2),
            final(self).port_vec@ == old(self).port_vec@,
            final(self).punch_model == old(self).punch_model,
            final(self).is_tcp == old(self).is_tcp,
    {
        let port: u16 = if info.public_ports.len() > 0 {
            info.public_ports[0]
        } else {
            0
        };
        let mut fine = fine_ports(port, info.public_port_range);
        let k2 = if need_punch && info.nat_type == NatType::Symmetric {
            if (info.public_port_range as usize) < 3 * FINE_MAX {
                shuffle(&mut fine);
            }
            random_in(BROAD_MIN, BROAD_MAX)
        } else {
            BROAD_MIN
        };
        let ghost f = fine@;
        let r = self.plan(need_punch, id, info, channel_num, is_cone, &fine, k2);
        proof {
            if !(need_punch && info.nat_type == NatType::Symmetric && (info.public_port_range as int) < 3 * FINE_MAX) {
                assert(r@ == old(self).spec_plan(need_punch, id, *info, channel_num, is_cone, f, k2 as nat));
            }
        }
        r
    }
}

fn push_tcp(out: &mut Vec<PunchStep>, is_tcp: bool, info: &NatInfo)
    ensures
        final(out)@ == old(out)@ + tcp_plan(is_tcp, *info),
{
    let ghost base = out@;
    if is_tcp && info.tcp_port != 0 {
        if let Some(a) = info.local_tcp_ipv6addr() {
            out.push(PunchStep { kind: StepKind::TcpConnect, channel: 0, addr: a, stop_on_success: true });
        }
        if let Some(a) = info.local_tcp_ipv4addr() {
            out.push(PunchStep { kind: StepKind::TcpConnect, channel: 0, addr: a, stop_on_success: true });
        }
        if info.nat_type == NatType::Cone && info.public_ips.len() == 1 {
            out.push(
                PunchStep {
                    kind: StepKind::TcpConnect,
                    channel: 0,
                    addr: SockAddr::V4 { ip: info.public_ips[0], port: info.tcp_port },
                    stop_on_success: true,
                },
            );
        }
    }
    assert(out@ =~= base + tcp_plan(is_tcp, *info));
}

fn push_local_v4(out: &mut Vec<PunchStep>, info: &NatInfo, channel_num: usize)
    ensures
        final(out)@ == old(out)@ + local_v4_plan(*info, channel_num as nat),
{
    let ghost base = out@;
    let mut index: usize = 0;
    assert(out@ =~= base + local_v4_plan(*info, 0));
    while index < channel_num
        invariant
            index <= channel_num,
            out@ == base + local_v4_plan(*info, index as nat),
        decreases channel_num - index,
    {
        if let Some(a) = info.local_udp_ipv4addr(index) {
            out.push(PunchStep { kind: StepKind::Udp, channel: index, addr: a, stop_on_success: false });
        }
        index = index + 1;
        assert(out@ =~= base + local_v4_plan(*info, index as nat));
    }
}

fn push_local_v6(out: &mut Vec<PunchStep>, info: &NatInfo, channel_num: usize, stop: bool)
    ensures
        final(out)@ == old(out)@ + local_v6_plan(*info, channel_num as nat, stop),
{
    let ghost base = out@;
    let mut index: usize = 0;
    assert(out@ =~= base + local_v6_plan(*info, 0, stop));
    while index < channel_num
        invariant
            index <= channel_num,
            out@ == base + local_v6_plan(*info, index as nat, stop),
        decreases channel_num - index,
    {
        if let Some(a) = info.local_udp_ipv6addr(index) {
            out.push(PunchStep { kind: StepKind::Udp, channel: index, addr: a, stop_on_success: stop });
        }
        index = index + 1;
        assert(out@ =~= base + local_v6_plan(*info, index as nat, stop));
    }
}

fn push_cone(out: &mut Vec<PunchStep>, info: &NatInfo, channel_num: usize, is_cone: bool)
    ensures
        final(out)@ == old(out)@ + cone_plan(*info, channel_num as nat, is_cone),
{
    let ghost base = out@;
    let m = if info.public_ports.len() < channel_num {
        info.public_ports.len()
    } else {
        channel_num
    };
    if is_cone {
        let mut index: usize = 0;
        assert(out@ =~= base + cone_rows(*info, 0));
        while index < m
            invariant
                index <= m,
                m <= info.public_ports@.len(),
                out@ == base + cone_rows(*info, index as nat),
            decreases m - index,
        {
            push_row(out, &info.public_ips, info.public_ports[index], StepKind::Udp, index, true);
            index = index + 1;
            assert(out@ =~= base + cone_rows(*info, index as nat));
        }
    } else if m > 0 {
        push_row(out, &info.public_ips, info.public_ports[0], StepKind::UdpAll, 0, true);
    } else {
        assert(out@ =~= base + Seq::<PunchStep>::empty());
    }
}

/// The ports of `fine_range(port, range)`, ascending.
pub fn fine_ports(port: u16, range: u16) -> (r: Vec<u16>)
    ensures
        r@ == fine_range(port, range),
{
    let lo: u32 = if port > range {
        (port - range) as u32
    } else {
        1
    };
    let hi: u32 = if port as u32 + range as u32 > 65535 {
        65535
    } else {
        port as u32 + range as u32
    };
    let mut out: Vec<u16> = Vec::new();
    let mut p: u32 = lo;
    while p <= hi
        invariant
            lo <= p <= hi + 1 || (hi < lo && p == lo),
            lo >= 1,
            hi <= 65535,
            lo == fine_low(port, range),
            hi == fine_high(port, range),
            p >= lo ==> out@ == fine_range(port, range).take(p - lo),
        decreases hi + 1 - p,
    {
        out.push(p as u16);
        p = p + 1;
        assert(out@ =~= fine_range(port, range).take(p - lo));
    }
    assert(out@ =~= fine_range(port, range));
    out
}

/// Appends `row(ips, port, kind, channel, skip_zero)` to `out`.
fn push_row(out: &mut Vec<PunchStep>, ips: &Vec<u32>, port: u16, kind: StepKind, channel: usize, skip_zero: bool)
    ensures
        final(out)@ == old(out)@ + row(ips@, port, kind, channel, skip_zero),
{
    let ghost base = out@;
    let mut j: usize = 0;
    while j < ips.len()
        invariant
            j <= ips@.len(),
            out@ == base + row(ips@.take(j as int), port, kind, channel, skip_zero),
        decreases ips@.len() - j,
    {
        let ip = ips[j];
        if !(skip_zero && (port == 0 || ip == 0)) {
            out.push(PunchStep { kind, channel, addr: SockAddr::V4 { ip, port }, stop_on_success: false });
        }
        j = j + 1;
        assert(ips@.take(j as int).drop_last() =~= ips@.take(j - 1));
        assert(out@ =~= base + row(ips@.take(j as int), port, kind, channel, skip_zero));
    }
    assert(ips@.take(ips@.len() as int) =~= ips@);
}

proof fn lemma_row_index(ips: Seq<u32>, port: u16, kind: StepKind, channel: usize)
    ensures
        row(ips, port, kind, channel, false).len() == ips.len(),
        forall|i: int|
            0 <= i < ips.len() ==> #[trigger] row(ips, port, kind, channel, false)[i] == step(
                kind,
                channel,
                SockAddr::V4 { ip: ips[i], port },
                false,
            ),
    decreases ips.len(),
{
    if ips.len() > 0 {
        lemma_row_index(ips.drop_last(), port, kind, channel);
    }
}

proof fn lemma_sym_len(ports: Seq<u16>, ips: Seq<u32>)
    ensures
        sym_pairs(ports, ips).len() == ports.len() * ips.len(),
    decreases ports.len(),
{
    if ports.len() > 0 {
        lemma_sym_len(ports.drop_last(), ips);
        lemma_row_index(ips, ports.last(), StepKind::Udp, 0);
        assert((ports.len() - 1) * ips.len() + ips.len() == ports.len() * ips.len()) by (nonlinear_arith);
    }
}

proof fn lemma_sym_prefix(ports: Seq<u16>, ips: Seq<u32>, k: int)
    requires
        0 <= k <= ports.len(),
    ensures
        sym_pairs(ports.take(k), ips) == sym_pairs(ports, ips).take(k * ips.len()),
    decreases ports.len(),
{
    lemma_sym_len(ports, ips);
    if k == ports.len() {
        assert(ports.take(k) =~= ports);
        assert(sym_pairs(ports, ips).take(k * ips.len()) =~= sym_pairs(ports, ips));
    } else {
        let d = ports.drop_last();
        lemma_sym_prefix(d, ips, k);
        assert(d.take(k) =~= ports.take(k));
        lemma_sym_len(d, ips);
        assert(k * ips.len() <= (ports.len() - 1) * ips.len()) by (nonlinear_arith)
            requires k <= ports.len() - 1;
        assert(sym_pairs(ports, ips).take(k * ips.len()) =~= sym_pairs(d, ips).take(k * ips.len()));
    }
}

proof fn lemma_sym_index(ports: Seq<u16>, ips: Seq<u32>, k: int, i: int)
    requires
        0 <= k < ports.len(),
        0 <= i < ips.len(),
    ensures
        k * ips.len() + i < ports.len() * ips.len(),
        sym_pairs(ports, ips)[k * ips.len() + i] == step(
            StepKind::Udp,
            0,
            SockAddr::V4 { ip: ips[i], port: ports[k] },
            false,
        ),
{
    let n = ips.len() as int;
    lemma_sym_prefix(ports, ips, k + 1);
    lemma_sym_prefix(ports, ips, k);
    let t = ports.take(k + 1);
    assert(t.drop_last() =~= ports.take(k));
    lemma_row_index(ips, ports[k], StepKind::Udp, 0);
    lemma_sym_len(ports.take(k), ips);
    lemma_sym_len(ports, ips);
    assert(k * n + i < (k + 1) * n) by (nonlinear_arith)
        requires i < n;
    assert((k + 1) * n <= ports.len() * n) by (nonlinear_arith)
        requires k + 1 <= ports.len(), n >= 0;
    assert(sym_pairs(t, ips)[k * n + i] == row(ips, ports[k], StepKind::Udp, 0, false)[i]);
}

/// Appends the datagrams of `sym_steps(ports[lo..hi], ips, max)` to `out` and
/// returns `sym_stop` of the same.
fn punch_symmetric(ports: &Vec<u16>, lo: usize, hi: usize, ips: &Vec<u32>, max: usize, out: &mut Vec<PunchStep>) -> (r: usize)
    requires
        lo <= hi <= ports@.len(),
        max >= 1,
    ensures
        final(out)@ == old(out)@ + sym_steps(ports@.subrange(lo as int, hi as int), ips@, max as nat),
        r == sym_stop(ports@.subrange(lo as int, hi as int), ips@, max as nat),
{
    let ghost ps = ports@.subrange(lo as int, hi as int);
    let ghost base = out@;
    let n = ips.len();
    proof {
        lemma_sym_len(ps, ips@);
    }
    let mut count: usize = 0;
    let mut pi: usize = lo;
    while pi < hi
        invariant
            lo <= pi <= hi <= ports@.len(),
            ps == ports@.subrange(lo as int, hi as int),
            n == ips@.len(),
            max >= 1,
            count == (pi - lo) * n,
            count < max,
            base == old(out)@,
            sym_pairs(ps, ips@).len() == ps.len() * n,
            out@ == base + sym_pairs(ps, ips@).take(count as int),
        decreases hi - pi,
    {
        let port = ports[pi];
        let mut ii: usize = 0;
        while ii < n
            invariant
                lo <= pi < hi <= ports@.len(),
                ps == ports@.subrange(lo as int, hi as int),
                n == ips@.len(),
                port == ps[pi - lo],
                max >= 1,
                ii <= n,
                count == (pi - lo) * n + ii,
                count < max,
                base == old(out)@,
                sym_pairs(ps, ips@).len() == ps.len() * n,
                out@ == base + sym_pairs(ps, ips@).take(count as int),
            decreases n - ii,
        {
            proof {
                lemma_sym_index(ps, ips@, pi - lo, ii as int);
            }
            count = count + 1;
            if count == max {
                proof {
                    let k = (pi - lo) as int;
                    assert(((max - 1) as nat / n as nat) as int == k) by (nonlinear_arith)
                        requires max - 1 == k * n + ii, ii < n, n > 0, k >= 0;
                    assert((max - 1) as nat <= ps.len() * n);
                    assert(min_nat((max - 1) as nat, ps.len() * ips@.len()) == (max - 1) as nat);
                    assert(out@ == base + sym_pairs(ps, ips@).take((max - 1) as int));
                }
                return pi - lo;
            }
            out.push(PunchStep { kind: StepKind::Udp, channel: 0, addr: SockAddr::V4 { ip: ips[ii], port }, stop_on_success: false });
            ii = ii + 1;
            assert(out@ =~= base + sym_pairs(ps, ips@).take(count as int));
        }
        pi = pi + 1;
        assert(count == (pi - lo) * n) by (nonlinear_arith)
            requires count == (pi - 1 - lo) * n + n;
    }
    proof {
        assert(count == ps.len() * n);
        assert(sym_pairs(ps, ips@).take(count as int) =~= sym_pairs(ps, ips@).take(min_nat((max - 1) as nat, ps.len() * ips@.len()) as int));
    }
    hi - lo
}

} // verus!
