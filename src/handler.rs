//! Dispatch of datagrams received from peers: control replies (ping, punch,
//! address discovery), tunnelled IPv4 (with ICMP echo reflection and the
//! proxy gate) and punch descriptors.
use vstd::prelude::*;
use std::collections::HashMap;
use crate::addr::{spec_v4_multicast, v4_multicast, SockAddr};
use crate::checksum::{checksum_of, get16, lemma_checksum_validates, ones_sum, put16};
use crate::device::CurrentDeviceInfo;
use crate::ip_packet::{
    header_len,
    ihl,
    ip_destination,
    ip_protocol,
    ip_source,
    ipv4_ok,
    ipv4_valid,
    put32,
    read32,
    update_icmp_checksum,
    update_ip_checksum,
    with_icmp_checksum,
    with_ip_checksum,
    write32,
    ICMP_ECHO_REPLY,
    ICMP_ECHO_REQUEST,
    IP_PROTO_ICMP,
    IP_PROTO_TCP,
};
use crate::nat_info::{NatInfo, NatType};
use crate::packet::{
    be_bytes,
    be_value,
    lemma_header_round_trip,
    build_packet,
    decode_header,
    header_bytes,
    rewrite_header,
    spec_decode,
    spec_header_valid,
    Header,
    CONTROL_ADDR_REQUEST,
    CONTROL_ADDR_RESPONSE,
    CONTROL_PING,
    CONTROL_PONG,
    CONTROL_PUNCH_REQUEST,
    CONTROL_PUNCH_RESPONSE,
    HEAD_LEN,
    IP_TURN_IPV4,
    MAX_TTL,
    OTHER_TURN_PUNCH,
    PROTOCOL_CONTROL,
    PROTOCOL_IP_TURN,
    PROTOCOL_OTHER_TURN,
};
use crate::proto::{encode_punch_info, punch_info_bytes, PunchInfo};
use crate::proxy::{endpoint_key, redirected, tcp_at, tcp_ok, TcpProxy};
use crate::route::{spec_add_if_absent, spec_add_route, spec_touch, Route, RouteEntry, RouteKey, RouteTable};

verus! {

/// Networks (address, mask) whose addresses this node forwards to.
pub struct AllowExternalRoute {
    pub nets: Vec<(u32, u32)>,
}

impl AllowExternalRoute {
    pub open spec fn spec_allow(&self, ip: u32) -> bool {
        exists|k: int|
            0 <= k < self.nets@.len() && (ip & (#[trigger] self.nets@[k]).1) == self.nets@[k].0
    }

    pub fn allow(&self, ip: u32) -> (r: bool)
        ensures
            r == self.spec_allow(ip),
    {
        let mut i: usize = 0;
        while i < self.nets.len()
            invariant
                i <= self.nets@.len(),
                forall|k: int| 0 <= k < i ==> (ip & (#[trigger] self.nets@[k]).1) != self.nets@[k].0,
            decreases self.nets@.len() - i,
        {
            let (net, mask) = self.nets[i];
            if ip & mask == net {
                return true;
            }
            i = i + 1;
        }
        false
    }
}

/// A route to record for a peer.
#[derive(Clone, Copy, Debug, PartialEq, Eq, Structural)]
pub struct RouteUpdate {
    pub dest: u32,
    pub route: Route,
    /// Keep an existing route with the same key untouched.
    pub only_if_absent: bool,
}

/// What the handler asks of the node for one datagram.
#[derive(Clone, Debug)]
pub enum HandleAction {
    /// Nothing to send or deliver.
    Drop,
    /// Send these bytes back on the route key the datagram came from.
    Reply(Vec<u8>),
    /// Write these bytes (an IPv4 datagram) to the virtual interface.
    ToTun(Vec<u8>),
}

/// The outcome of a control datagram.
#[derive(Clone, Debug)]
pub struct ControlOutcome {
    pub reply: Option<Vec<u8>>,
    pub route: Option<RouteUpdate>,
}

/// Hop count implied by a header: initial TTL minus current TTL, plus one.
pub open spec fn spec_metric(h: Header) -> u8 {
    (h.source_ttl - h.ttl + 1) as u8
}

/// `h` turned back to `source`, from `me`, with sub-protocol `transport` and
/// both TTLs set to `ttl`.
pub open spec fn turned(h: Header, me: u32, transport: u8, ttl: u8) -> Header {
    Header { transport, source: me, destination: h.source, ttl, source_ttl: ttl, ..h }
}

pub open spec fn control_reply_bytes(b: Seq<u8>, h: Header, me: u32, transport: u8, ttl: u8) -> Seq<u8> {
    header_bytes(turned(h, me, transport, ttl)) + b.subrange(HEAD_LEN as int, b.len() as int)
}

/// The `AddrResponse` datagram telling `to` that it is seen at `ip:port`.
pub open spec fn addr_response_bytes(me: u32, to: u32, ip: u32, port: u16) -> Seq<u8> {
    header_bytes(Header {
        encrypted: false,
        gateway: false,
        protocol: PROTOCOL_CONTROL,
        transport: CONTROL_ADDR_RESPONSE,
        ttl: MAX_TTL,
        source_ttl: MAX_TTL,
        source: me,
        destination: to,
    }) + be_bytes(ip) + seq![(port / 256) as u8, (port % 256) as u8]
}

pub open spec fn outcome_is(o: ControlOutcome, reply: Option<Seq<u8>>, route: Option<RouteUpdate>) -> bool {
    &&& (o.reply is Some <==> reply is Some)
    &&& (o.reply is Some ==> o.reply->0@ == reply->0)
    &&& o.route == route
}

/// The reply and the route that a control datagram `b` with header `h`,
/// heard on `key`, calls for.
pub open spec fn spec_control(
    b: Seq<u8>,
    h: Header,
    key: RouteKey,
    me: u32,
    relay_only: bool,
    now16: u16,
) -> (Option<Seq<u8>>, Option<RouteUpdate>) {
    let metric = spec_metric(h);
    let payload_len = b.len() - HEAD_LEN;
    if h.ttl > h.source_ttl {
        (None, None)
    } else if h.transport == CONTROL_PING && payload_len >= 4 {
        (
            Some(control_reply_bytes(b, h, me, CONTROL_PONG, MAX_TTL)),
            Some(RouteUpdate { dest: h.source, route: Route { key, metric, rt: -1i64 }, only_if_absent: true }),
        )
    } else if h.transport == CONTROL_PONG && payload_len >= 4 {
        let t = get16(b, HEAD_LEN as int);
        if now16 < t {
            (None, None)
        } else {
            (
                None,
                Some(
                    RouteUpdate {
                        dest: h.source,
                        route: Route { key, metric, rt: (now16 - t) as i64 },
                        only_if_absent: false,
                    },
                ),
            )
        }
    } else if h.transport == CONTROL_PUNCH_REQUEST && !relay_only {
        (
            Some(control_reply_bytes(b, h, me, CONTROL_PUNCH_RESPONSE, 1)),
            Some(RouteUpdate { dest: h.source, route: Route { key, metric: 1, rt: -1i64 }, only_if_absent: true }),
        )
    } else if h.transport == CONTROL_PUNCH_RESPONSE && !relay_only {
        (None, Some(RouteUpdate { dest: h.source, route: Route { key, metric: 1, rt: -1i64 }, only_if_absent: true }))
    } else if h.transport == CONTROL_ADDR_REQUEST {
        match key.addr {
            SockAddr::V4 { ip, port } => (Some(addr_response_bytes(me, h.source, ip, port)), None),
            SockAddr::V6 { .. } => (None, None),
        }
    } else {
        (None, None)
    }
}

/// Whether `real_dest` goes through the proxy gate: it is not the overlay
/// destination and not a broadcast, multicast or unspecified address.
pub open spec fn spec_external(real_dest: u32, overlay_dest: u32, broadcast_ip: u32) -> bool {
    real_dest != overlay_dest && !(real_dest == 0xffff_ffffu32 || spec_v4_multicast(real_dest)
        || real_dest == broadcast_ip || real_dest == 0)
}

/// The tunnelled datagram is an ICMP message addressed to the overlay
/// destination itself.
pub open spec fn icmp_to_self(b: Seq<u8>, h: Header) -> bool {
    ipv4_ok(b, HEAD_LEN as int) && ip_protocol(b, HEAD_LEN as int) == IP_PROTO_ICMP && ip_destination(
        b,
        HEAD_LEN as int,
    ) == h.destination
}

pub open spec fn icmp_at(b: Seq<u8>) -> int {
    HEAD_LEN + ihl(b, HEAD_LEN as int)
}

/// The echo reply built in place from an echo request: ICMP type and
/// checksum, inner addresses swapped, IPv4 checksum, overlay addresses
/// swapped.
pub open spec fn echo_reply_bytes(b: Seq<u8>, h: Header) -> Seq<u8> {
    let s1 = b.update(icmp_at(b), ICMP_ECHO_REPLY);
    let s2 = with_icmp_checksum(s1, HEAD_LEN as int);
    let s3 = put32(s2, HEAD_LEN + 12, h.destination);
    let s4 = put32(s3, HEAD_LEN + 16, h.source);
    let s5 = with_ip_checksum(s4, HEAD_LEN as int);
    header_bytes(Header { source: h.destination, destination: h.source, ..h }) + s5.subrange(
        HEAD_LEN as int,
        s5.len() as int,
    )
}

/// What a tunnelled datagram `b` under header `h` calls for: echo requests
/// to the overlay destination are answered in place, traffic to other
/// destinations passes the allow list (and the TCP proxy, when there is
/// one), everything else goes to the virtual interface unchanged.
pub open spec fn ip_turn_ok(
    b: Seq<u8>,
    h: Header,
    broadcast_ip: u32,
    allow: AllowExternalRoute,
    proxy: Option<TcpProxy>,
    r: HandleAction,
) -> bool {
    &&& (h.transport != IP_TURN_IPV4 ==> r is Drop)
    &&& (h.transport == IP_TURN_IPV4 && !ipv4_ok(b, HEAD_LEN as int) ==> r is Drop)
    &&& (h.transport == IP_TURN_IPV4 && icmp_to_self(b, h) && icmp_at(b) + 8 > b.len() ==> r is Drop)
    &&& (h.transport == IP_TURN_IPV4 && icmp_to_self(b, h) && icmp_at(b) + 8 <= b.len()
        && b[icmp_at(b)] == ICMP_ECHO_REQUEST ==> r is Reply && r->Reply_0@ == echo_reply_bytes(b, h))
    &&& (h.transport == IP_TURN_IPV4 && ipv4_ok(b, HEAD_LEN as int) && !(icmp_to_self(b, h) && (
            icmp_at(b) + 8 > b.len() || b[icmp_at(b)] == ICMP_ECHO_REQUEST)) ==> {
                let real_dest = ip_destination(b, HEAD_LEN as int);
                let external = spec_external(real_dest, h.destination, broadcast_ip);
                if external && !allow.spec_allow(real_dest) {
                    r is Drop
                } else if external && proxy is Some && ip_protocol(b, HEAD_LEN as int)
                    == IP_PROTO_TCP {
                    if !tcp_ok(b, HEAD_LEN as int) {
                        r is Drop
                    } else {
                        let port = proxy->0.port;
                        let out = redirected(b, HEAD_LEN as int, h.source, h.destination, port);
                        r is ToTun && r->ToTun_0@ == out.subrange(HEAD_LEN as int, out.len() as int)
                    }
                } else {
                    r is ToTun && r->ToTun_0@ == b.subrange(HEAD_LEN as int, b.len() as int)
                }
            })
}

proof fn lemma_region_put16(d: Seq<u8>, lo: int, hi: int, at: int, v: u16)
    requires
        0 <= lo <= at,
        at + 2 <= hi <= d.len(),
    ensures
        put16(d, at, v).subrange(lo, hi) == put16(d.subrange(lo, hi), at - lo, v),
{
    assert(put16(d, at, v).subrange(lo, hi) =~= put16(d.subrange(lo, hi), at - lo, v));
}

/// An echo request to the overlay destination is answered by an echo reply
/// of the same length, from the requested address back to the requester,
/// whose ICMP message and IPv4 header both check out.
pub proof fn lemma_echo_reply_valid(b: Seq<u8>, h: Header)
    requires
        spec_header_valid(b),
        h == spec_decode(b),
        h.wf(),
        icmp_to_self(b, h),
        icmp_at(b) + 8 <= b.len(),
        b[icmp_at(b)] == ICMP_ECHO_REQUEST,
    ensures
        ({
            let r = echo_reply_bytes(b, h);
            &&& r.len() == b.len()
            &&& r[icmp_at(b)] == ICMP_ECHO_REPLY
            &&& ones_sum(r.subrange(icmp_at(b), r.len() as int)) == 65535
            &&& ones_sum(r.subrange(HEAD_LEN as int, icmp_at(b))) == 65535
            &&& ip_source(r, HEAD_LEN as int) == h.destination
            &&& ip_destination(r, HEAD_LEN as int) == h.source
            &&& spec_decode(r) == Header { source: h.destination, destination: h.source, ..h }
        }),
{
    let base = HEAD_LEN as int;
    let at = icmp_at(b);
    let n = b.len() as int;
    let s1 = b.update(at, ICMP_ECHO_REPLY);
    assert(s1[base] == b[base]);
    assert(ihl(s1, base) == ihl(b, base));
    let z1 = put16(s1, at + 2, 0);
    let c1 = checksum_of(z1.subrange(at, n));
    let s2 = put16(s1, at + 2, c1);
    assert(s2 == with_icmp_checksum(s1, base));
    lemma_region_put16(s1, at, n, at + 2, 0);
    lemma_region_put16(s1, at, n, at + 2, c1);
    lemma_checksum_validates(s1.subrange(at, n), 2);
    let s3 = put32(s2, base + 12, h.destination);
    let s4 = put32(s3, base + 16, h.source);
    assert(s4[base] == b[base]);
    assert(ihl(s4, base) == ihl(b, base));
    let z4 = put16(s4, base + 10, 0);
    let c4 = checksum_of(z4.subrange(base, at));
    let s5 = put16(s4, base + 10, c4);
    assert(s5 == with_ip_checksum(s4, base));
    lemma_region_put16(s4, base, at, base + 10, 0);
    lemma_region_put16(s4, base, at, base + 10, c4);
    lemma_checksum_validates(s4.subrange(base, at), 10);
    let h2 = Header { source: h.destination, destination: h.source, ..h };
    lemma_header_round_trip(h2);
    let r = header_bytes(h2) + s5.subrange(base, n);
    assert(r == echo_reply_bytes(b, h));
    assert(r.subrange(at, n) =~= s5.subrange(at, n));
    assert(s5.subrange(at, n) =~= s2.subrange(at, n));
    assert(r.subrange(base, at) =~= s5.subrange(base, at));
    assert(r.subrange(0, base) =~= header_bytes(h2));
    assert(spec_decode(r) == spec_decode(header_bytes(h2)));
    lemma_put32_read(s2, base + 12, h.destination);
    lemma_put32_read(s3, base + 16, h.source);
}

proof fn lemma_put32_read(d: Seq<u8>, at: int, v: u32)
    requires
        0 <= at,
        at + 4 <= d.len(),
    ensures
        be_value(
            put32(d, at, v)[at],
            put32(d, at, v)[at + 1],
            put32(d, at, v)[at + 2],
            put32(d, at, v)[at + 3],
        ) == v,
{
    assert(((((v >> 24u32) as u8) as u32) << 24u32) | ((((v >> 16u32) as u8) as u32) << 16u32)
        | ((((v >> 8u32) as u8) as u32) << 8u32) | ((v as u8) as u32) == v) by (bit_vector);
}

/// The datagram is a TCP segment that the proxy takes over.
pub open spec fn proxied(b: Seq<u8>, h: Header, broadcast_ip: u32, allow: AllowExternalRoute, proxy: Option<TcpProxy>) -> bool {
    let real_dest = ip_destination(b, HEAD_LEN as int);
    &&& h.transport == IP_TURN_IPV4
    &&& ipv4_ok(b, HEAD_LEN as int)
    &&& spec_external(real_dest, h.destination, broadcast_ip)
    &&& allow.spec_allow(real_dest)
    &&& proxy is Some
    &&& ip_protocol(b, HEAD_LEN as int) == IP_PROTO_TCP
    &&& tcp_ok(b, HEAD_LEN as int)
}

/// The proxy after a tunnelled datagram: a proxied flow is recorded as
/// overlay source endpoint to real destination; otherwise nothing changes.
pub open spec fn proxy_after(
    b: Seq<u8>,
    h: Header,
    broadcast_ip: u32,
    allow: AllowExternalRoute,
    old_proxy: Option<TcpProxy>,
    new_proxy: Option<TcpProxy>,
) -> bool {
    if proxied(b, h, broadcast_ip, allow, old_proxy) {
        let at = tcp_at(b, HEAD_LEN as int);
        &&& new_proxy is Some
        &&& new_proxy->0.port == old_proxy->0.port
        &&& new_proxy->0.nat_map@ == old_proxy->0.nat_map@.insert(
            endpoint_key(h.source, get16(b, at)),
            endpoint_key(ip_destination(b, HEAD_LEN as int), get16(b, at + 2)),
        )
    } else {
        new_proxy == old_proxy
    }
}

/// Two profiles hold the same values.
pub open spec fn same_profile(a: NatInfo, b: NatInfo) -> bool {
    &&& a.public_ips@ == b.public_ips@
    &&& a.public_ports@ == b.public_ports@
    &&& a.public_port_range == b.public_port_range
    &&& a.nat_type == b.nat_type
    &&& a.local_ipv4 == b.local_ipv4
    &&& a.ipv6 == b.ipv6
    &&& a.udp_ports@ == b.udp_ports@
    &&& a.tcp_port == b.tcp_port
}

/// Which of the four punch queues a descriptor goes to.
#[derive(Clone, Copy, Debug, PartialEq, Eq, Structural)]
pub enum PunchQueue {
    SelfSymmetric,
    PeerSymmetric,
    SelfCone,
    PeerCone,
}

pub open spec fn spec_punch_queue(src_peer: bool, t: NatType) -> PunchQueue {
    match t {
        NatType::Symmetric => if src_peer {
            PunchQueue::PeerSymmetric
        } else {
            PunchQueue::SelfSymmetric
        },
        NatType::Cone => if src_peer {
            PunchQueue::PeerCone
        } else {
            PunchQueue::SelfCone
        },
    }
}

/// The queue for a descriptor from a peer (`src_peer`: the peer started
/// the negotiation) with NAT type `t`.
pub fn punch_queue(src_peer: bool, t: NatType) -> (r: PunchQueue)
    ensures
        r == spec_punch_queue(src_peer, t),
{
    match t {
        NatType::Symmetric => if src_peer {
            PunchQueue::PeerSymmetric
        } else {
            PunchQueue::SelfSymmetric
        },
        NatType::Cone => if src_peer {
            PunchQueue::PeerCone
        } else {
            PunchQueue::SelfCone
        },
    }
}

/// What a received punch descriptor calls for.
#[derive(Clone, Debug)]
pub struct PunchOutcome {
    pub peer: u32,
    pub peer_info: NatInfo,
    pub queue: PunchQueue,
    /// The descriptor to send back when the queue accepts the peer's one.
    pub reply: Option<Vec<u8>>,
}

/// The datagram carrying descriptor `p` from `me` to `to`.
pub open spec fn punch_packet_bytes(me: u32, to: u32, p: PunchInfo) -> Seq<u8> {
    header_bytes(Header {
        encrypted: false,
        gateway: false,
        protocol: PROTOCOL_OTHER_TURN,
        transport: OTHER_TURN_PUNCH,
        ttl: MAX_TTL,
        source_ttl: MAX_TTL,
        source: me,
        destination: to,
    }) + punch_info_bytes(p)
}

/// The datagram that carries `info` from `me` to `to`.
pub fn punch_packet(me: u32, to: u32, info: &NatInfo, reply: bool) -> (r: Vec<u8>)
    requires
        info.udp_ports@.len() > 0,
        info.public_ips@.len() <= 0x100_0000,
        info.public_ports@.len() <= 0x100_0000,
        info.udp_ports@.len() <= 0x100_0000,
    ensures
        exists|p: PunchInfo|
            crate::proto::advertises(p, *info, reply) && r@ == punch_packet_bytes(me, to, p),
{
    let p = PunchInfo::from_nat_info(info, reply);
    let body = encode_punch_info(&p);
    let h = Header {
        encrypted: false,
        gateway: false,
        protocol: PROTOCOL_OTHER_TURN,
        transport: OTHER_TURN_PUNCH,
        ttl: MAX_TTL,
        source_ttl: MAX_TTL,
        source: me,
        destination: to,
    };
    let r = build_packet(&h, body.as_slice());
    assert(r@ == punch_packet_bytes(me, to, p));
    r
}

/// Narrows each value to 16 bits.
pub open spec fn narrow(v: Seq<u32>) -> Seq<u16> {
    Seq::new(v.len(), |i: int| v[i] as u16)
}

fn narrow_ports(v: &Vec<u32>) -> (r: Vec<u16>)
    ensures
        r@ == narrow(v@),
{
    let mut out: Vec<u16> = Vec::new();
    let mut i: usize = 0;
    while i < v.len()
        invariant
            i <= v@.len(),
            out@ == narrow(v@).take(i as int),
        decreases v@.len() - i,
    {
        out.push(v[i] as u16);
        i = i + 1;
        assert(out@ =~= narrow(v@).take(i as int));
    }
    assert(out@ =~= narrow(v@));
    out
}

/// A list of ports with the single legacy port standing in for an empty one.
pub open spec fn backfilled(list: Seq<u32>, single: u32) -> Seq<u16> {
    if list.len() == 0 {
        seq![single as u16]
    } else {
        narrow(list)
    }
}

fn backfill(list: &Vec<u32>, single: u32) -> (r: Vec<u16>)
    ensures
        r@ == backfilled(list@, single),
{
    if list.len() == 0 {
        let r: Vec<u16> = vec![single as u16];
        assert(r@ =~= seq![single as u16]);
        r
    } else {
        narrow_ports(list)
    }
}

/// The IPv6 address that sixteen bytes hold, most significant first.
pub open spec fn v6_from(b: Seq<u8>) -> u128
    decreases b.len(),
{
    if b.len() == 0 {
        0
    } else {
        (v6_from(b.drop_last()) << 8u128) | (b.last() as u128)
    }
}

fn v6_from_bytes(b: &Vec<u8>) -> (r: u128)
    requires
        b@.len() == 16,
    ensures
        r == v6_from(b@),
{
    let mut acc: u128 = 0;
    let mut i: usize = 0;
    while i < 16
        invariant
            i <= 16,
            b@.len() == 16,
            acc == v6_from(b@.take(i as int)),
        decreases 16 - i,
    {
        proof {
            assert(b@.take(i + 1).drop_last() =~= b@.take(i as int));
        }
        acc = (acc << 8u128) | (b[i] as u128);
        i = i + 1;
    }
    assert(b@.take(16) =~= b@);
    acc
}

/// The NAT type a descriptor announces (unknown codes read as symmetric).
pub open spec fn nat_type_from_code(c: u32) -> NatType {
    if c == 1 {
        NatType::Cone
    } else {
        NatType::Symmetric
    }
}

/// The handler's state: forwarding policy, optional TCP proxy, whether
/// direct routes are forbidden, this node's NAT profile and the profiles
/// learnt from peers.
pub struct ClientPacketHandler {
    pub route: AllowExternalRoute,
    pub ip_proxy: Option<TcpProxy>,
    pub relay_only: bool,
    pub nat_info: NatInfo,
    pub peer_nat_info_map: HashMap<u32, NatInfo>,
}

impl ClientPacketHandler {
    pub open spec fn wf(&self) -> bool {
        match self.ip_proxy {
            Some(p) => p.wf(),
            None => true,
        }
    }

    /// This node's profile can be advertised: it has a local port (the
    /// single-port field needs one) and its lists fit the wire format.
    pub open spec fn can_advertise(&self) -> bool {
        &&& self.nat_info.udp_ports@.len() > 0
        &&& self.nat_info.public_ips@.len() <= 0x100_0000
        &&& self.nat_info.public_ports@.len() <= 0x100_0000
        &&& self.nat_info.udp_ports@.len() <= 0x100_0000
    }

    pub fn new(
        route: AllowExternalRoute,
        ip_proxy: Option<TcpProxy>,
        relay_only: bool,
        nat_info: NatInfo,
    ) -> (r: ClientPacketHandler)
        ensures
            r.route == route,
            r.ip_proxy == ip_proxy,
            r.relay_only == relay_only,
            r.nat_info == nat_info,
            r.peer_nat_info_map@ == Map::<u32, NatInfo>::empty(),
    {
        ClientPacketHandler { route, ip_proxy, relay_only, nat_info, peer_nat_info_map: HashMap::new() }
    }

    /// Handles a control datagram `b` whose decoded header is `h`, heard on
    /// `key`, at 16-bit wall-clock time `now16`.
    pub fn control(&self, b: Vec<u8>, h: &Header, key: RouteKey, me: u32, now16: u16) -> (r: ControlOutcome)
        requires
            spec_header_valid(b@),
            *h == spec_decode(b@),
            h.wf(),
        ensures
            outcome_is(r, spec_control(b@, *h, key, me, self.relay_only, now16).0, spec_control(b@, *h, key, me, self.relay_only, now16).1),
    {
        let none = ControlOutcome { reply: None, route: None };
        if h.ttl > h.source_ttl {
            return none;
        }
        let metric = h.source_ttl - h.ttl + 1;
        let payload_len = b.len() - HEAD_LEN;
        let mut b = b;
        if h.transport == CONTROL_PING && payload_len >= 4 {
            let t = Header { transport: CONTROL_PONG, source: me, destination: h.source, ttl: MAX_TTL, source_ttl: MAX_TTL, ..*h };
            rewrite_header(&mut b, &t);
            ControlOutcome {
                reply: Some(b),
                route: Some(RouteUpdate { dest: h.source, route: Route::from_default_rt(key, metric), only_if_absent: true }),
            }
        } else if h.transport == CONTROL_PONG && payload_len >= 4 {
            let t = crate::ip_packet::read16(&b, HEAD_LEN);
            if now16 < t {
                return none;
            }
            ControlOutcome {
                reply: None,
                route: Some(RouteUpdate { dest: h.source, route: Route { key, metric, rt: (now16 - t) as i64 }, only_if_absent: false }),
            }
        } else if h.transport == CONTROL_PUNCH_REQUEST && !self.relay_only {
            let t = Header { transport: CONTROL_PUNCH_RESPONSE, source: me, destination: h.source, ttl: 1, source_ttl: 1, ..*h };
            rewrite_header(&mut b, &t);
            ControlOutcome {
                reply: Some(b),
                route: Some(RouteUpdate { dest: h.source, route: Route::from_default_rt(key, 1), only_if_absent: true }),
            }
        } else if h.transport == CONTROL_PUNCH_RESPONSE && !self.relay_only {
            ControlOutcome {
                reply: None,
                route: Some(RouteUpdate { dest: h.source, route: Route::from_default_rt(key, 1), only_if_absent: true }),
            }
        } else if h.transport == CONTROL_ADDR_REQUEST {
            match key.addr {
                SockAddr::V4 { ip, port } => {
                    let t = Header {
                        encrypted: false,
                        gateway: false,
                        protocol: PROTOCOL_CONTROL,
                        transport: CONTROL_ADDR_RESPONSE,
                        ttl: MAX_TTL,
                        source_ttl: MAX_TTL,
                        source: me,
                        destination: h.source,
                    };
                    let mut payload: Vec<u8> = vec![0u8, 0u8, 0u8, 0u8, (port / 256) as u8, (port % 256) as u8];
                    write32(&mut payload, 0, ip);
                    assert(payload@ =~= be_bytes(ip) + seq![(port / 256) as u8, (port % 256) as u8]);
                    let r = build_packet(&t, payload.as_slice());
                    assert(r@ =~= addr_response_bytes(me, h.source, ip, port));
                    ControlOutcome { reply: Some(r), route: None }
                },
                SockAddr::V6 { .. } => none,
            }
        } else {
            none
        }
    }

    /// Handles a tunnelled IPv4 datagram `b` whose decoded header is `h`.
    pub fn ip_turn(&mut self, b: Vec<u8>, h: &Header, broadcast_ip: u32) -> (r: HandleAction)
        requires
            old(self).wf(),
            spec_header_valid(b@),
            *h == spec_decode(b@),
            h.wf(),
        ensures
            final(self).wf(),
            final(self).route == old(self).route,
            final(self).relay_only == old(self).relay_only,
            ip_turn_ok(b@, *h, broadcast_ip, old(self).route, old(self).ip_proxy, r),
            proxy_after(b@, *h, broadcast_ip, old(self).route, old(self).ip_proxy, final(self).ip_proxy),
            final(self).peer_nat_info_map@ == old(self).peer_nat_info_map@,
            final(self).nat_info == old(self).nat_info,
    {
        if h.transport != IP_TURN_IPV4 {
            return HandleAction::Drop;
        }
        if !ipv4_valid(&b, HEAD_LEN) {
            return HandleAction::Drop;
        }
        let mut b = b;
        let proto = b[HEAD_LEN + 9];
        let inner_dst = read32(&b, HEAD_LEN + 16);
        if proto == IP_PROTO_ICMP && inner_dst == h.destination {
            let at = HEAD_LEN + header_len(&b, HEAD_LEN);
            if at + 8 > b.len() {
                return HandleAction::Drop;
            }
            if b[at] == ICMP_ECHO_REQUEST {
                let ghost b0 = b@;
                b.set(at, ICMP_ECHO_REPLY);
                proof {
                    lemma_first_byte_kept(b0, b@);
                }
                update_icmp_checksum(&mut b, HEAD_LEN);
                write32(&mut b, HEAD_LEN + 12, h.destination);
                write32(&mut b, HEAD_LEN + 16, h.source);
                proof {
                    assert(b@[HEAD_LEN as int] == b0[HEAD_LEN as int]);
                }
                update_ip_checksum(&mut b, HEAD_LEN);
                let t = Header { source: h.destination, destination: h.source, ..*h };
                rewrite_header(&mut b, &t);
                return HandleAction::Reply(b);
            }
        }
        let real_dest = inner_dst;
        let external = real_dest != h.destination && !(real_dest == 0xffff_ffffu32 || v4_multicast(real_dest)
            || real_dest == broadcast_ip || real_dest == 0);
        if external {
            if !self.route.allow(real_dest) {
                return HandleAction::Drop;
            }
            if proto == IP_PROTO_TCP {
                match &mut self.ip_proxy {
                    Some(p) => {
                        let at = HEAD_LEN + header_len(&b, HEAD_LEN);
                        if at + 20 > b.len() {
                            return HandleAction::Drop;
                        }
                        p.recv_handle(&mut b, HEAD_LEN, h.source, h.destination);
                    },
                    None => {},
                }
            }
        }
        HandleAction::ToTun(tail(&b))
    }

    /// Handles a punch descriptor `p` received from `source` (`h` is the
    /// header it came under): records the peer's profile and, when the peer
    /// started the negotiation, prepares this node's own descriptor as reply.
    pub fn other_turn(&mut self, source: u32, me: u32, p: &PunchInfo) -> (r: PunchOutcome)
        requires
            old(self).wf(),
            old(self).can_advertise(),
        ensures
            final(self).wf(),
            final(self).can_advertise(),
            r.peer == source,
            r.peer_info.public_ips@ == crate::nat_info::spec_public_filter(p.public_ip_list@),
            r.peer_info.public_ports@ == backfilled(p.public_ports@, p.public_port),
            r.peer_info.udp_ports@ == backfilled(p.udp_ports@, p.local_port),
            r.peer_info.public_port_range == p.public_port_range as u16,
            r.peer_info.tcp_port == p.tcp_port as u16,
            r.peer_info.local_ipv4 == crate::nat_info::spec_local_filter(Some(p.local_ip)),
            r.peer_info.ipv6 == crate::nat_info::spec_v6_filter(if p.ipv6@.len() == 16 {
                Some(v6_from(p.ipv6@))
            } else {
                None
            }),
            r.peer_info.nat_type == crate::nat_info::spec_normalized_type(
                p.public_ip_list@,
                nat_type_from_code(p.nat_type),
            ),
            final(self).peer_nat_info_map@.dom() == old(self).peer_nat_info_map@.dom().insert(source),
            same_profile(final(self).peer_nat_info_map@[source], r.peer_info),
            forall|k: u32|
                k != source && #[trigger] old(self).peer_nat_info_map@.contains_key(k)
                    ==> final(self).peer_nat_info_map@[k] == old(self).peer_nat_info_map@[k],
            r.queue == spec_punch_queue(!p.reply, r.peer_info.nat_type),
            r.reply is Some <==> !p.reply,
            r.reply is Some ==> exists|q: PunchInfo|
                crate::proto::advertises(q, old(self).nat_info, true) && r.reply->0@
                    == punch_packet_bytes(me, source, q),
            final(self).nat_info == old(self).nat_info,
            final(self).relay_only == old(self).relay_only,
            final(self).route == old(self).route,
            final(self).ip_proxy == old(self).ip_proxy,
    {
        let public_ports = backfill(&p.public_ports, p.public_port);
        let udp_ports = backfill(&p.udp_ports, p.local_port);
        let ipv6 = if p.ipv6.len() == 16 {
            Some(v6_from_bytes(&p.ipv6))
        } else {
            None
        };
        let nat_type = if p.nat_type == 1 {
            NatType::Cone
        } else {
            NatType::Symmetric
        };
        let peer_info = NatInfo::new(
            p.public_ip_list.clone(),
            public_ports,
            p.public_port_range as u16,
            Some(p.local_ip),
            ipv6,
            udp_ports,
            p.tcp_port as u16,
            nat_type,
        );
        let stored = NatInfo {
            public_ips: peer_info.public_ips.clone(),
            public_ports: peer_info.public_ports.clone(),
            udp_ports: peer_info.udp_ports.clone(),
            ..peer_info
        };
        self.peer_nat_info_map.insert(source, stored);
        proof {
            assert(self.peer_nat_info_map@.dom() =~= old(self).peer_nat_info_map@.dom().insert(source));
        }
        let queue = punch_queue(!p.reply, peer_info.nat_type);
        let reply = if !p.reply {
            Some(punch_packet(me, source, &self.nat_info, true))
        } else {
            None
        };
        PunchOutcome { peer: source, peer_info, queue, reply }
    }
}

/// What `handle` leaves to the caller.
#[derive(Clone, Debug)]
pub enum Handled {
    Done(HandleAction),
    /// A punch descriptor from `source`: decode `payload` and pass it to
    /// `other_turn`.
    Punch { source: u32, payload: Vec<u8> },
}

/// The rows after recording `u`.
pub open spec fn spec_apply(s: Seq<RouteEntry>, u: Option<RouteUpdate>, now: u64) -> Seq<RouteEntry> {
    match u {
        None => s,
        Some(u) => if u.only_if_absent {
            spec_add_if_absent(s, u.dest, u.route, now)
        } else {
            spec_add_route(s, u.dest, u.route, now)
        },
    }
}

impl ClientPacketHandler {
    /// Handles one decrypted datagram `b` heard on `key`: an undecodable
    /// header is dropped; otherwise the route it came on is stamped as read
    /// at `now_ms` and the datagram is dispatched by protocol. Control
    /// datagrams may record a route; in relay-only mode punch descriptors are
    /// dropped.
    pub fn handle(
        &mut self,
        b: Vec<u8>,
        key: RouteKey,
        dev: &CurrentDeviceInfo,
        routes: &mut RouteTable,
        now_ms: u64,
        now16: u16,
    ) -> (r: Handled)
        requires
            old(self).wf(),
            old(routes).wf(),
        ensures
            final(self).wf(),
            final(routes).wf(),
            final(routes).first_latency == old(routes).first_latency,
            final(self).peer_nat_info_map@ == old(self).peer_nat_info_map@,
            final(self).nat_info == old(self).nat_info,
            final(self).route == old(self).route,
            final(self).relay_only == old(self).relay_only,
            !(spec_header_valid(b@) && spec_decode(b@).protocol == PROTOCOL_IP_TURN) ==> final(self).ip_proxy
                == old(self).ip_proxy,
            spec_header_valid(b@) && spec_decode(b@).protocol == PROTOCOL_IP_TURN ==> proxy_after(
                b@,
                spec_decode(b@),
                dev.broadcast_ip,
                old(self).route,
                old(self).ip_proxy,
                final(self).ip_proxy,
            ),
            !spec_header_valid(b@) ==> r == Handled::Done(HandleAction::Drop) && final(routes).entries@
                == old(routes).entries@,
            spec_header_valid(b@) ==> {
                let h = spec_decode(b@);
                let touched = spec_touch(old(routes).entries@, h.source, key, now_ms);
                if h.protocol == PROTOCOL_CONTROL {
                    let (reply, upd) = spec_control(b@, h, key, dev.virtual_ip, old(self).relay_only, now16);
                    &&& final(routes).entries@ == spec_apply(touched, upd, now_ms)
                    &&& match r {
                        Handled::Done(HandleAction::Reply(v)) => reply is Some && v@ == reply->0,
                        Handled::Done(HandleAction::Drop) => reply is None,
                        _ => false,
                    }
                } else if h.protocol == PROTOCOL_OTHER_TURN {
                    &&& final(routes).entries@ == touched
                    &&& if !old(self).relay_only && h.transport == OTHER_TURN_PUNCH {
                        r == Handled::Punch { source: h.source, payload: r->payload }
                            && r->payload@ == b@.subrange(HEAD_LEN as int, b@.len() as int)
                    } else {
                        r == Handled::Done(HandleAction::Drop)
                    }
                } else if h.protocol == PROTOCOL_IP_TURN {
                    &&& final(routes).entries@ == touched
                    &&& match r {
                        Handled::Done(a) => ip_turn_ok(b@, h, dev.broadcast_ip, old(self).route, old(self).ip_proxy, a),
                        _ => false,
                    }
                } else {
                    final(routes).entries@ == touched && r == Handled::Done(HandleAction::Drop)
                }
            },
    {
        let h = match decode_header(b.as_slice()) {
            Some(h) => h,
            None => {
                return Handled::Done(HandleAction::Drop);
            },
        };
        routes.update_read_time(h.source, &key, now_ms);
        if h.protocol == PROTOCOL_CONTROL {
            let o = self.control(b, &h, key, dev.virtual_ip, now16);
            match o.route {
                Some(u) => {
                    if u.only_if_absent {
                        routes.add_route_if_absent(u.dest, u.route, now_ms);
                    } else {
                        routes.add_route(u.dest, u.route, now_ms);
                    }
                },
                None => {},
            }
            match o.reply {
                Some(v) => Handled::Done(HandleAction::Reply(v)),
                None => Handled::Done(HandleAction::Drop),
            }
        } else if h.protocol == PROTOCOL_IP_TURN {
            Handled::Done(self.ip_turn(b, &h, dev.broadcast_ip))
        } else if h.protocol == PROTOCOL_OTHER_TURN {
            if !self.relay_only && h.transport == OTHER_TURN_PUNCH {
                Handled::Punch { source: h.source, payload: tail(&b) }
            } else {
                Handled::Done(HandleAction::Drop)
            }
        } else {
            Handled::Done(HandleAction::Drop)
        }
    }
}

/// The bytes after the overlay header.
fn tail(b: &Vec<u8>) -> (r: Vec<u8>)
    requires
        b@.len() >= HEAD_LEN,
    ensures
        r@ == b@.subrange(HEAD_LEN as int, b@.len() as int),
{
    let mut out: Vec<u8> = Vec::new();
    let mut i: usize = HEAD_LEN;
    while i < b.len()
        invariant
            HEAD_LEN <= i <= b@.len(),
            out@ == b@.subrange(HEAD_LEN as int, i as int),
        decreases b@.len() - i,
    {
        out.push(b[i]);
        i = i + 1;
        assert(out@ =~= b@.subrange(HEAD_LEN as int, i as int));
    }
    out
}

proof fn lemma_first_byte_kept(a: Seq<u8>, b: Seq<u8>)
    requires
        ipv4_ok(a, HEAD_LEN as int),
        a.len() == b.len(),
        a[HEAD_LEN as int] == b[HEAD_LEN as int],
    ensures
        ipv4_ok(b, HEAD_LEN as int),
        ihl(a, HEAD_LEN as int) == ihl(b, HEAD_LEN as int),
{
}

} // verus!
