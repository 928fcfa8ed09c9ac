//! The periodic tasks: route aging, the gateway watchdog, and the choice of
//! peers to negotiate punching with.
use vstd::prelude::*;
use crate::addr::SockAddr;
use crate::device::{ConnectStatus, CurrentDeviceInfo};
use crate::handshake::{gateway_header, spec_due, version_seq, Handshake};
use crate::packet::{
    build_packet,
    header_bytes,
    Header,
    CONTROL_PUNCH_REQUEST,
    PROTOCOL_CONTROL,
    SERVICE_HANDSHAKE_REQUEST,
};
use crate::proto::handshake_request_bytes;
use crate::rng::shuffle;
use crate::route::{expired, time_left, IdleType, RouteTable};

verus! {

/// Delay after a route timed out, in milliseconds.
pub const IDLE_AFTER_TIMEOUT_MS: u64 = 100;

/// Delay when the table is empty, in milliseconds.
pub const IDLE_EMPTY_MS: u64 = 3000;

/// Period of the gateway watchdog, in milliseconds.
pub const GATEWAY_PERIOD_MS: u64 = 5000;

/// How long after the last address probe the server name is resolved
/// again, in milliseconds.
pub const RESOLVE_WINDOW_MS: u64 = 360_000;

/// Most peers asked to punch per round.
pub const PUNCH_PEERS_PER_ROUND: usize = 2;

/// What one aging probe did.
#[derive(Clone, Copy, Debug, PartialEq, Eq, Structural)]
pub struct IdleStep {
    pub idle: IdleType,
    /// When to probe again, in milliseconds.
    pub delay_ms: u64,
    /// The gateway's route expired: the node is connecting again.
    pub disconnected: bool,
}

/// One aging probe at `now`: an expired route is removed (and if it led to
/// the gateway the node goes back to connecting); the next probe comes after
/// 100 ms when a route expired, when the next route can expire otherwise, or
/// after 3 s on an empty table.
pub fn idle_route0(routes: &mut RouteTable, dev: &mut CurrentDeviceInfo, now: u64, timeout: u64) -> (r: IdleStep)
    requires
        old(routes).wf(),
    ensures
        final(routes).wf(),
        final(routes).first_latency == old(routes).first_latency,
        (r.idle == IdleType::Idle) <==> old(routes).entries@.len() == 0,
        match r.idle {
            IdleType::Idle => r.delay_ms == IDLE_EMPTY_MS && !r.disconnected
                && final(routes).entries@ == old(routes).entries@ && *final(dev) == *old(dev),
            IdleType::Sleep(d) => r.delay_ms == d && !r.disconnected
                && final(routes).entries@ == old(routes).entries@ && *final(dev) == *old(dev)
                && (forall|i: int| 0 <= i < old(routes).entries@.len()
                    ==> !expired(#[trigger] old(routes).entries@[i], now, timeout))
                && (forall|i: int| 0 <= i < old(routes).entries@.len()
                    ==> d <= time_left(#[trigger] old(routes).entries@[i], now, timeout))
                && (exists|i: int| 0 <= i < old(routes).entries@.len()
                    && d == time_left(old(routes).entries@[i], now, timeout)),
            IdleType::Timeout(ip, route) => r.delay_ms == IDLE_AFTER_TIMEOUT_MS
                && (exists|i: int| 0 <= i < old(routes).entries@.len()
                    && old(routes).entries@[i].dest == ip && old(routes).entries@[i].route == route
                    && expired(old(routes).entries@[i], now, timeout)
                    && final(routes).entries@ == old(routes).entries@.remove(i))
                && r.disconnected == (ip == old(dev).virtual_gateway)
                && *final(dev) == (if r.disconnected {
                    CurrentDeviceInfo { status: ConnectStatus::Connecting, ..*old(dev) }
                } else {
                    *old(dev)
                }),
        },
{
    let idle = routes.next_idle(now, timeout);
    match idle {
        IdleType::Timeout(ip, route) => {
            proof {
                let i = choose|i: int| 0 <= i < routes.entries@.len()
                    && routes.entries@[i].dest == ip && routes.entries@[i].route == route
                    && expired(routes.entries@[i], now, timeout);
                lemma_unique_row(routes, i, ip, route.key);
            }
            routes.remove_route(ip, &route.key);
            let disconnected = dev.is_gateway(ip);
            if disconnected {
                dev.status = ConnectStatus::Connecting;
            }
            IdleStep { idle, delay_ms: IDLE_AFTER_TIMEOUT_MS, disconnected }
        },
        IdleType::Sleep(d) => IdleStep { idle, delay_ms: d, disconnected: false },
        IdleType::Idle => IdleStep { idle, delay_ms: IDLE_EMPTY_MS, disconnected: false },
    }
}

/// In a well-formed table the row with a given destination and key is the
/// only one.
proof fn lemma_unique_row(t: &RouteTable, i: int, dest: u32, key: crate::route::RouteKey)
    requires
        t.wf(),
        0 <= i < t.entries@.len(),
        t.entries@[i].dest == dest,
        t.entries@[i].route.key == key,
    ensures
        forall|j: int|
            0 <= j < t.entries@.len() && t.entries@[j].dest == dest && t.entries@[j].route.key == key
                ==> j == i,
{
    assert forall|j: int|
        0 <= j < t.entries@.len() && t.entries@[j].dest == dest && t.entries@[j].route.key == key implies j == i by {
        if j < i {
            assert(!(t.entries@[j].dest == t.entries@[i].dest && t.entries@[j].route.key == t.entries@[i].route.key));
        } else if j > i {
            assert(!(t.entries@[i].dest == t.entries@[j].dest && t.entries@[i].route.key == t.entries@[j].route.key));
        }
    }
}

/// What one tick of the gateway watchdog asks for.
#[derive(Clone, Debug)]
pub struct GatewayTick {
    /// Resolve the server name again (and adopt a changed address).
    pub resolve: bool,
    /// Tell the user of reconnection attempt number `n`.
    pub connect_attempt: Option<usize>,
    /// The handshake request to send to the server.
    pub handshake: Option<Vec<u8>>,
}

/// The watchdog's memory between ticks.
#[derive(Clone, Copy, Debug)]
pub struct GatewayState {
    pub connect_count: usize,
    /// When the server name was last resolved, in milliseconds.
    pub probe_time: u64,
    pub handshake: Handshake,
}

impl GatewayState {
    pub fn new(now: u64) -> (r: GatewayState)
        ensures
            r.connect_count == 0,
            r.probe_time == now,
            r.handshake.last_sent is None,
    {
        GatewayState { connect_count: 0, probe_time: now, handshake: Handshake::new() }
    }

    /// One tick at `now`. While the node is not connected: count the
    /// attempt, resolve the server again when the last probe is less than six
    /// minutes old, report the attempt, and hand out a handshake unless one
    /// left less than three seconds ago (the caller reports it sent to the
    /// clock). A connected node does nothing.
    pub fn tick(&mut self, status: ConnectStatus, now: u64, secret: bool) -> (r: GatewayTick)
        requires
            old(self).connect_count < usize::MAX,
        ensures
            status == ConnectStatus::Connected ==> *final(self) == *old(self) && !r.resolve
                && r.connect_attempt is None && r.handshake is None,
            status != ConnectStatus::Connected ==> {
                let elapsed_ok = now >= old(self).probe_time && now - old(self).probe_time
                    < RESOLVE_WINDOW_MS || now < old(self).probe_time;
                &&& final(self).connect_count == old(self).connect_count + 1
                &&& r.resolve == elapsed_ok
                &&& final(self).probe_time == (if elapsed_ok {
                    now
                } else {
                    old(self).probe_time
                })
                &&& r.connect_attempt == Some((old(self).connect_count + 1) as usize)
                &&& (r.handshake is Some <==> spec_due(old(self).handshake.last_sent, now))
                &&& (r.handshake is Some ==> r.handshake->0@ == header_bytes(
                    gateway_header(SERVICE_HANDSHAKE_REQUEST),
                ) + handshake_request_bytes(secret, version_seq()))
                &&& final(self).handshake == old(self).handshake
            },
    {
        if status.online() {
            return GatewayTick { resolve: false, connect_attempt: None, handshake: None };
        }
        self.connect_count = self.connect_count + 1;
        let resolve = (now >= self.probe_time && now - self.probe_time < RESOLVE_WINDOW_MS) || now
            < self.probe_time;
        if resolve {
            self.probe_time = now;
        }
        let handshake = self.handshake.send(now, secret);
        GatewayTick { resolve, connect_attempt: Some(self.connect_count), handshake }
    }
}

/// The device info after resolving the server name to `resolved`.
pub fn domain_request0(dev: &CurrentDeviceInfo, resolved: Option<SockAddr>) -> (r: CurrentDeviceInfo)
    ensures
        r == (match resolved {
            Some(a) => CurrentDeviceInfo { connect_server: a, ..*dev },
            None => *dev,
        }),
{
    match resolved {
        Some(a) => {
            if a != dev.connect_server {
                CurrentDeviceInfo { connect_server: a, ..*dev }
            } else {
                *dev
            }
        },
        None => *dev,
    }
}

/// Online state of a peer.
#[derive(Clone, Copy, Debug, PartialEq, Eq, Structural)]
pub enum PeerStatus {
    Online,
    Offline,
}

/// A peer as the server lists it.
#[derive(Clone, Debug)]
pub struct PeerDeviceInfo {
    pub virtual_ip: u32,
    pub name: String,
    pub status: PeerStatus,
    pub client_secret: bool,
}

/// Seconds between punch negotiation rounds, cycling.
pub open spec fn sleep_table() -> Seq<u64> {
    seq![3u64, 5, 7, 11, 13, 17, 19, 23, 29]
}

/// Seconds until round `count + 1`: from the cycling table while online,
/// else 3.
pub fn punch_request_delay(online: bool, count: usize) -> (r: u64)
    ensures
        r == (if online {
            sleep_table()[(count % 9) as int]
        } else {
            3
        }),
{
    if !online {
        return 3;
    }
    let table: [u64; 9] = [3u64, 5, 7, 11, 13, 17, 19, 23, 29];
    let r = table[count % 9];
    assert(table@ =~= sleep_table());
    r
}

/// The candidates of a negotiation round: online peers whose address is
/// above this node's, in list order.
pub open spec fn candidate(p: PeerDeviceInfo, me: u32) -> bool {
    p.status == PeerStatus::Online && p.virtual_ip > me
}

pub open spec fn spec_candidates(list: Seq<PeerDeviceInfo>, me: u32) -> Seq<u32>
    decreases list.len(),
{
    if list.len() == 0 {
        Seq::empty()
    } else {
        spec_candidates(list.drop_last(), me) + if candidate(list.last(), me) {
            seq![list.last().virtual_ip]
        } else {
            Seq::empty()
        }
    }
}

fn candidates(list: &Vec<PeerDeviceInfo>, me: u32) -> (r: Vec<u32>)
    ensures
        r@ == spec_candidates(list@, me),
{
    let mut out: Vec<u32> = Vec::new();
    let mut i: usize = 0;
    while i < list.len()
        invariant
            i <= list@.len(),
            out@ == spec_candidates(list@.take(i as int), me),
        decreases list@.len() - i,
    {
        let p = &list[i];
        let ok = match p.status {
            PeerStatus::Online => p.virtual_ip > me,
            PeerStatus::Offline => false,
        };
        if ok {
            out.push(p.virtual_ip);
        }
        i = i + 1;
        assert(list@.take(i as int).drop_last() =~= list@.take(i - 1));
    }
    assert(list@.take(list@.len() as int) =~= list@);
    out
}

/// Of `order`, the first (at most two) peers still without a direct route.
pub open spec fn spec_targets(order: Seq<u32>, routes: RouteTable) -> Seq<u32>
    decreases order.len(),
{
    if order.len() == 0 {
        Seq::empty()
    } else {
        let rest = spec_targets(order.drop_last(), routes);
        if rest.len() < 2 && routes.spec_need_punch(order.last()) {
            rest.push(order.last())
        } else {
            rest
        }
    }
}

/// The peers of `order` to negotiate with this round.
pub fn punch_targets(order: &Vec<u32>, routes: &RouteTable) -> (r: Vec<u32>)
    ensures
        r@ == spec_targets(order@, *routes),
        r@.len() <= PUNCH_PEERS_PER_ROUND,
{
    let mut out: Vec<u32> = Vec::new();
    let mut i: usize = 0;
    while i < order.len()
        invariant
            i <= order@.len(),
            out@ == spec_targets(order@.take(i as int), *routes),
            out@.len() <= 2,
        decreases order@.len() - i,
    {
        let ip = order[i];
        proof {
            assert(order@.take(i + 1).drop_last() =~= order@.take(i as int));
        }
        if out.len() < PUNCH_PEERS_PER_ROUND && routes.need_punch(ip) {
            out.push(ip);
        }
        i = i + 1;
    }
    assert(order@.take(order@.len() as int) =~= order@);
    out
}

/// Chooses this round's peers: the candidates in random order, then the
/// first two that still need punching.
pub fn punch0(list: &Vec<PeerDeviceInfo>, me: u32, routes: &RouteTable) -> (r: Vec<u32>)
    ensures
        exists|order: Seq<u32>|
            order.to_multiset() == spec_candidates(list@, me).to_multiset() && r@ == spec_targets(
                order,
                *routes,
            ),
        r@.len() <= PUNCH_PEERS_PER_ROUND,
{
    let mut order = candidates(list, me);
    shuffle(&mut order);
    punch_targets(&order, routes)
}

/// The datagram that asks `peer` to punch back: a control header with TTL 1
/// and no payload.
pub open spec fn punch_request_header(me: u32, peer: u32) -> Header {
    Header {
        encrypted: false,
        gateway: false,
        protocol: PROTOCOL_CONTROL,
        transport: CONTROL_PUNCH_REQUEST,
        ttl: 1,
        source_ttl: 1,
        source: me,
        destination: peer,
    }
}

pub fn punch_request_packet(me: u32, peer: u32) -> (r: Vec<u8>)
    ensures
        r@ == header_bytes(punch_request_header(me, peer)),
{
    let h = Header {
        encrypted: false,
        gateway: false,
        protocol: PROTOCOL_CONTROL,
        transport: CONTROL_PUNCH_REQUEST,
        ttl: 1,
        source_ttl: 1,
        source: me,
        destination: peer,
    };
    let empty: Vec<u8> = Vec::new();
    let r = build_packet(&h, empty.as_slice());
    assert(r@ =~= header_bytes(h));
    r
}

} // verus!
