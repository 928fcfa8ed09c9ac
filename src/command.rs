//! Text views of the route table, the peer list and this node, as the local
//! control socket reports them.
use vstd::prelude::*;
use std::collections::HashMap;
use crate::addr::SockAddr;
use crate::device::{ConnectStatus, CurrentDeviceInfo};
use crate::maintain::{PeerDeviceInfo, PeerStatus};
use crate::nat_info::{NatInfo, NatType};
use crate::route::{Route, RouteEntry, RouteKey, RouteTable};

verus! {

broadcast use vstd::std_specs::hash::group_hash_axioms;

/// The commands of the control socket.
#[derive(Clone, Copy, Debug, PartialEq, Eq, Structural)]
pub enum CommandEnum {
    Route,
    List,
    All,
    Info,
    Stop,
}

pub open spec fn digit_char(d: nat) -> char {
    if d == 0 { '0' } else if d == 1 { '1' } else if d == 2 { '2' } else if d == 3 { '3' }
    else if d == 4 { '4' } else if d == 5 { '5' } else if d == 6 { '6' } else if d == 7 { '7' }
    else if d == 8 { '8' } else if d == 9 { '9' } else if d == 10 { 'a' } else if d == 11 { 'b' }
    else if d == 12 { 'c' } else if d == 13 { 'd' } else if d == 14 { 'e' } else { 'f' }
}

/// Decimal digits of `n`, without leading zeros.
pub open spec fn decimal(n: nat) -> Seq<char>
    decreases n,
{
    if n < 10 {
        seq![digit_char(n)]
    } else {
        decimal(n / 10).push(digit_char(n % 10))
    }
}

/// Lowercase hexadecimal digits of `n`, without leading zeros.
pub open spec fn hex(n: nat) -> Seq<char>
    decreases n,
{
    if n < 16 {
        seq![digit_char(n)]
    } else {
        hex(n / 16).push(digit_char(n % 16))
    }
}

/// Relies on `ToString` for `u64` (its `Display`): the decimal digits.
#[verifier::external_body]
fn decimal_string(n: u64) -> (r: String)
    ensures
        r@ == decimal(n as nat),
{
    n.to_string()
}

/// Relies on `format!` with `{:x}` for `u16` (its `LowerHex`): lowercase
/// hexadecimal digits.
#[verifier::external_body]
fn hex_string(n: u16) -> (r: String)
    ensures
        r@ == hex(n as nat),
{
    format!("{:x}", n)
}

pub open spec fn ipv4_text(ip: u32) -> Seq<char> {
    decimal((ip >> 24u32) as nat) + "."@ + decimal(((ip >> 16u32) & 0xff) as nat) + "."@ + decimal(
        ((ip >> 8u32) & 0xff) as nat,
    ) + "."@ + decimal((ip & 0xff) as nat)
}

pub open spec fn ipv6_group(ip: u128, k: nat) -> nat {
    ((ip >> ((16 * (7 - k)) as u128)) & 0xffff) as nat
}

/// The eight 16-bit groups of an IPv6 address, most significant first.
pub open spec fn ipv6_segments(ip: u128) -> Seq<u16> {
    Seq::new(8, |k: int| ipv6_group(ip, k as nat) as u16)
}

/// Scanning the first `n` groups for runs of zero groups: (start, length) of
/// the first longest run, then (start, length) of the run in progress.
pub open spec fn zero_scan(s: Seq<u16>, n: nat) -> (nat, nat, nat, nat)
    decreases n,
{
    if n == 0 {
        (0, 0, 0, 0)
    } else {
        let (ls, ll, cs, cl) = zero_scan(s, (n - 1) as nat);
        if s[n - 1] == 0 {
            let cs2 = if cl == 0 {
                (n - 1) as nat
            } else {
                cs
            };
            let cl2 = cl + 1;
            if cl2 > ll {
                (cs2, cl2, cs2, cl2)
            } else {
                (ls, ll, cs2, cl2)
            }
        } else {
            (ls, ll, 0, 0)
        }
    }
}

/// Groups in lowercase hexadecimal without leading zeros, joined by colons.
pub open spec fn hex_join(s: Seq<u16>) -> Seq<char>
    decreases s.len(),
{
    if s.len() == 0 {
        Seq::empty()
    } else if s.len() == 1 {
        hex(s[0] as nat)
    } else {
        hex_join(s.drop_last()) + ":"@ + hex(s.last() as nat)
    }
}

/// The text form of an IPv6 address (RFC 5952): an IPv4-mapped address as
/// `::ffff:` and dotted decimal; otherwise the groups in hexadecimal, the
/// first longest run of two or more zero groups written as `::`.
pub open spec fn ipv6_text(ip: u128) -> Seq<char> {
    if (ip >> 32u128) == 0xffffu128 {
        "::ffff:"@ + ipv4_text((ip & 0xffff_ffffu128) as u32)
    } else {
        let s = ipv6_segments(ip);
        let (ls, ll, _, _) = zero_scan(s, 8);
        if ll > 1 {
            hex_join(s.subrange(0, ls as int)) + "::"@ + hex_join(s.subrange((ls + ll) as int, 8))
        } else {
            hex_join(s)
        }
    }
}

pub open spec fn addr_text(a: SockAddr) -> Seq<char> {
    match a {
        SockAddr::V4 { ip, port } => ipv4_text(ip) + ":"@ + decimal(port as nat),
        SockAddr::V6 { ip6, port } => "["@ + ipv6_text(ip6) + "]:"@ + decimal(port as nat),
    }
}

pub fn ipv4_string(ip: u32) -> (r: String)
    ensures
        r@ == ipv4_text(ip),
{
    let mut s = decimal_string((ip >> 24u32) as u64);
    s.append(".");
    s.append(decimal_string(((ip >> 16u32) & 0xff) as u64).as_str());
    s.append(".");
    s.append(decimal_string(((ip >> 8u32) & 0xff) as u64).as_str());
    s.append(".");
    s.append(decimal_string((ip & 0xff) as u64).as_str());
    s
}

fn hex_join_string(s: &Vec<u16>, lo: usize, hi: usize) -> (r: String)
    requires
        lo <= hi <= s@.len(),
    ensures
        r@ == hex_join(s@.subrange(lo as int, hi as int)),
{
    let mut out = String::new();
    let mut i: usize = lo;
    while i < hi
        invariant
            lo <= i <= hi <= s@.len(),
            out@ == hex_join(s@.subrange(lo as int, i as int)),
        decreases hi - i,
    {
        proof {
            assert(s@.subrange(lo as int, i + 1).drop_last() =~= s@.subrange(lo as int, i as int));
        }
        if i > lo {
            out.append(":");
        }
        out.append(hex_string(s[i]).as_str());
        i = i + 1;
        proof {
            if i == lo + 1 {
                assert(out@ =~= hex_join(s@.subrange(lo as int, i as int)));
            }
        }
    }
    out
}

fn segments(ip: u128) -> (r: Vec<u16>)
    ensures
        r@ == ipv6_segments(ip),
{
    let mut out: Vec<u16> = Vec::new();
    let mut k: u32 = 0;
    while k < 8
        invariant
            k <= 8,
            out@ == ipv6_segments(ip).take(k as int),
        decreases 8 - k,
    {
        let sh = (16 * (7 - k)) as u128;
        let g = (ip >> sh) & 0xffffu128;
        assert(g <= 0xffffu128) by (bit_vector)
            requires g == (ip >> sh) & 0xffffu128;
        out.push(g as u16);
        k = k + 1;
        assert(out@ =~= ipv6_segments(ip).take(k as int));
    }
    assert(out@ =~= ipv6_segments(ip));
    out
}

pub fn ipv6_string(ip: u128) -> (r: String)
    ensures
        r@ == ipv6_text(ip),
{
    if (ip >> 32u128) == 0xffffu128 {
        let mut t = String::from_str("::ffff:");
        t.append(ipv4_string((ip & 0xffff_ffffu128) as u32).as_str());
        return t;
    }
    let s = segments(ip);
    let mut ls: usize = 0;
    let mut ll: usize = 0;
    let mut cs: usize = 0;
    let mut cl: usize = 0;
    let mut i: usize = 0;
    while i < 8
        invariant
            i <= 8,
            s@.len() == 8,
            (ls as nat, ll as nat, cs as nat, cl as nat) == zero_scan(s@, i as nat),
            ls + ll <= i,
            cs + cl <= i,
            cl <= i,
        decreases 8 - i,
    {
        if s[i] == 0 {
            if cl == 0 {
                cs = i;
            }
            cl = cl + 1;
            if cl > ll {
                ls = cs;
                ll = cl;
            }
        } else {
            cs = 0;
            cl = 0;
        }
        i = i + 1;
    }
    if ll > 1 {
        let mut t = hex_join_string(&s, 0, ls);
        t.append("::");
        t.append(hex_join_string(&s, ls + ll, 8).as_str());
        t
    } else {
        let t = hex_join_string(&s, 0, 8);
        assert(s@.subrange(0, 8) =~= s@);
        t
    }
}

pub fn addr_string(a: &SockAddr) -> (r: String)
    ensures
        r@ == addr_text(*a),
{
    match a {
        SockAddr::V4 { ip, port } => {
            let mut s = ipv4_string(*ip);
            s.append(":");
            s.append(decimal_string(*port as u64).as_str());
            s
        },
        SockAddr::V6 { ip6, port } => {
            let mut s = String::from_str("[");
            s.append(ipv6_string(*ip6).as_str());
            s.append("]:");
            s.append(decimal_string(*port as u64).as_str());
            s
        },
    }
}

/// A row of the route listing.
#[derive(Clone, Debug)]
pub struct RouteItem {
    pub destination: String,
    pub next_hop: String,
    pub metric: String,
    pub rt: String,
    pub interface: String,
}

/// The round-trip time as text: empty while unmeasured.
pub open spec fn rt_text(rt: i64) -> Seq<char> {
    if rt < 0 {
        Seq::empty()
    } else {
        decimal(rt as nat)
    }
}

fn rt_string(rt: i64) -> (r: String)
    ensures
        r@ == rt_text(rt),
{
    if rt < 0 {
        String::new()
    } else {
        decimal_string(rt as u64)
    }
}

pub open spec fn interface_text(key: RouteKey) -> Seq<char> {
    if key.is_tcp {
        "tcp@"@ + addr_text(key.addr)
    } else {
        addr_text(key.addr)
    }
}

/// The peer whose direct route uses `key`, if any: the first such row.
pub open spec fn spec_route_to_id(s: Seq<RouteEntry>, key: RouteKey) -> Option<u32>
    decreases s.len(),
{
    if s.len() == 0 {
        None
    } else if s[0].route.metric == 1 && s[0].route.key == key {
        Some(s[0].dest)
    } else {
        spec_route_to_id(s.subrange(1, s.len() as int), key)
    }
}

pub fn route_to_id(routes: &RouteTable, key: &RouteKey) -> (r: Option<u32>)
    ensures
        r == spec_route_to_id(routes.entries@, *key),
{
    let mut i: usize = 0;
    assert(routes.entries@.subrange(0, routes.entries@.len() as int) =~= routes.entries@);
    while i < routes.entries.len()
        invariant
            i <= routes.entries@.len(),
            spec_route_to_id(routes.entries@, *key) == spec_route_to_id(
                routes.entries@.subrange(i as int, routes.entries@.len() as int),
                *key,
            ),
        decreases routes.entries@.len() - i,
    {
        let e = routes.entries[i];
        let ghost rest = routes.entries@.subrange(i as int, routes.entries@.len() as int);
        assert(rest[0] == e);
        if e.route.metric == 1 && e.route.key == *key {
            return Some(e.dest);
        }
        assert(rest.subrange(1, rest.len() as int) =~= routes.entries@.subrange(
            i + 1,
            routes.entries@.len() as int,
        ));
        i = i + 1;
    }
    None
}

pub open spec fn opt_ip_text(o: Option<u32>) -> Seq<char> {
    match o {
        Some(ip) => ipv4_text(ip),
        None => Seq::empty(),
    }
}

pub open spec fn route_item_ok(it: RouteItem, s: Seq<RouteEntry>, e: RouteEntry) -> bool {
    &&& it.destination@ == ipv4_text(e.dest)
    &&& it.next_hop@ == opt_ip_text(spec_route_to_id(s, e.route.key))
    &&& it.metric@ == decimal(e.route.metric as nat)
    &&& it.rt@ == rt_text(e.route.rt)
    &&& it.interface@ == interface_text(e.route.key)
}

fn opt_ip_string(o: Option<u32>) -> (r: String)
    ensures
        r@ == opt_ip_text(o),
{
    match o {
        Some(ip) => ipv4_string(ip),
        None => String::new(),
    }
}

/// One row per route of the table, in table order.
pub fn command_route(routes: &RouteTable) -> (r: Vec<RouteItem>)
    ensures
        r@.len() == routes.entries@.len(),
        forall|i: int|
            0 <= i < r@.len() ==> route_item_ok(#[trigger] r@[i], routes.entries@, routes.entries@[i]),
{
    let mut out: Vec<RouteItem> = Vec::new();
    let mut i: usize = 0;
    while i < routes.entries.len()
        invariant
            i <= routes.entries@.len(),
            out@.len() == i,
            forall|k: int|
                0 <= k < i ==> route_item_ok(#[trigger] out@[k], routes.entries@, routes.entries@[k]),
        decreases routes.entries@.len() - i,
    {
        let e = routes.entries[i];
        let interface = if e.route.key.is_tcp {
            let mut s = String::from_str("tcp@");
            s.append(addr_string(&e.route.key.addr).as_str());
            s
        } else {
            addr_string(&e.route.key.addr)
        };
        let item = RouteItem {
            destination: ipv4_string(e.dest),
            next_hop: opt_ip_string(route_to_id(routes, &e.route.key)),
            metric: decimal_string(e.route.metric as u64),
            rt: rt_string(e.route.rt),
            interface,
        };
        out.push(item);
        i = i + 1;
    }
    out
}

/// A row of the peer listing.
#[derive(Clone, Debug)]
pub struct DeviceItem {
    pub name: String,
    pub virtual_ip: String,
    pub nat_type: String,
    pub public_ips: String,
    pub local_ip: String,
    pub ipv6: String,
    pub nat_traversal_type: String,
    pub rt: String,
    pub status: String,
    pub client_secret: bool,
    pub current_client_secret: bool,
}

pub open spec fn nat_type_text(t: NatType) -> Seq<char> {
    match t {
        NatType::Symmetric => "Symmetric"@,
        NatType::Cone => "Cone"@,
    }
}

fn nat_type_string(t: NatType) -> (r: String)
    ensures
        r@ == nat_type_text(t),
{
    match t {
        NatType::Symmetric => String::from_str("Symmetric"),
        NatType::Cone => String::from_str("Cone"),
    }
}

/// Addresses as text, joined by commas.
pub open spec fn joined(ips: Seq<u32>) -> Seq<char>
    decreases ips.len(),
{
    if ips.len() == 0 {
        Seq::empty()
    } else if ips.len() == 1 {
        ipv4_text(ips[0])
    } else {
        joined(ips.drop_last()) + ","@ + ipv4_text(ips.last())
    }
}

fn joined_string(ips: &Vec<u32>) -> (r: String)
    ensures
        r@ == joined(ips@),
{
    let mut s = String::new();
    let mut i: usize = 0;
    while i < ips.len()
        invariant
            i <= ips@.len(),
            s@ == joined(ips@.take(i as int)),
        decreases ips@.len() - i,
    {
        proof {
            assert(ips@.take(i + 1).drop_last() =~= ips@.take(i as int));
        }
        if i > 0 {
            s.append(",");
        }
        s.append(ipv4_string(ips[i]).as_str());
        i = i + 1;
        proof {
            if i == 1 {
                assert(s@ =~= joined(ips@.take(1)));
            }
        }
    }
    assert(ips@.take(ips@.len() as int) =~= ips@);
    s
}

pub open spec fn opt_text_or_none(t: Option<Seq<char>>) -> Seq<char> {
    match t {
        Some(x) => x,
        None => "None"@,
    }
}

pub open spec fn local_text(info: NatInfo) -> Seq<char> {
    opt_text_or_none(match info.local_ipv4 {
        Some(ip) => Some(ipv4_text(ip)),
        None => None,
    })
}

pub open spec fn ipv6_opt_text(info: NatInfo) -> Seq<char> {
    opt_text_or_none(match info.ipv6 {
        Some(ip) => Some(ipv6_text(ip)),
        None => None,
    })
}

fn local_string(info: &NatInfo) -> (r: String)
    ensures
        r@ == local_text(*info),
{
    match info.local_ipv4 {
        Some(ip) => ipv4_string(ip),
        None => String::from_str("None"),
    }
}

fn ipv6_opt_string(info: &NatInfo) -> (r: String)
    ensures
        r@ == ipv6_opt_text(*info),
{
    match info.ipv6 {
        Some(ip) => ipv6_string(ip),
        None => String::from_str("None"),
    }
}

pub open spec fn status_text(s: PeerStatus) -> Seq<char> {
    match s {
        PeerStatus::Online => "Online"@,
        PeerStatus::Offline => "Offline"@,
    }
}

/// How a peer is reached: directly (over UDP or TCP), through the server,
/// through another client, or not at all yet.
pub open spec fn traversal_text(route: Option<Route>, routes: RouteTable, dev: CurrentDeviceInfo) -> Seq<char> {
    match route {
        None => "relay"@,
        Some(r) => if r.metric == 1 {
            if r.key.is_tcp {
                "tcp-p2p"@
            } else {
                "p2p"@
            }
        } else {
            match spec_route_to_id(routes.entries@, r.key) {
                Some(hop) => if hop == dev.virtual_gateway {
                    "server-relay"@
                } else {
                    "client-relay"@
                },
                None => "server-relay"@,
            }
        },
    }
}

pub open spec fn device_item_ok(
    it: DeviceItem,
    p: PeerDeviceInfo,
    profile: Option<NatInfo>,
    route: Option<Route>,
    routes: RouteTable,
    dev: CurrentDeviceInfo,
    current_secret: bool,
) -> bool {
    &&& it.name@ == p.name@
    &&& it.virtual_ip@ == ipv4_text(p.virtual_ip)
    &&& match profile {
        Some(n) => it.nat_type@ == nat_type_text(n.nat_type) && it.public_ips@ == joined(n.public_ips@)
            && it.local_ip@ == local_text(n) && it.ipv6@ == ipv6_opt_text(n),
        None => it.nat_type@.len() == 0 && it.public_ips@.len() == 0 && it.local_ip@.len() == 0
            && it.ipv6@.len() == 0,
    }
    &&& it.nat_traversal_type@ == traversal_text(route, routes, dev)
    &&& it.rt@ == (match route {
        Some(r) => rt_text(r.rt),
        None => Seq::empty(),
    })
    &&& it.status@ == status_text(p.status)
    &&& it.client_secret == p.client_secret
    &&& it.current_client_secret == current_secret
}

/// `route` is what `RouteTable::route` may return for `ip`.
pub open spec fn preferred(route: Option<Route>, routes: RouteTable, ip: u32) -> bool {
    &&& (route is None <==> forall|k: int|
        0 <= k < routes.entries@.len() ==> #[trigger] routes.entries@[k].dest != ip)
    &&& (route is Some ==> exists|j: int| routes.is_best(ip, j) && routes.entries@[j].route == route->0)
}

/// The route a peer row describes is the one the default policy prefers:
/// of two routes to the peer, never the one with the larger metric (under
/// first-latency, never the one with the larger measured round-trip time).
pub proof fn lemma_listing_uses_preferred(route: Option<Route>, routes: RouteTable, ip: u32, i1: int, i2: int)
    requires
        routes.wf(),
        preferred(route, routes, ip),
        0 <= i1 < routes.entries@.len(),
        0 <= i2 < routes.entries@.len(),
        routes.entries@[i1].dest == ip,
        routes.entries@[i2].dest == ip,
        !routes.first_latency ==> routes.entries@[i1].route.metric < routes.entries@[i2].route.metric,
        routes.first_latency ==> 0 <= routes.entries@[i1].route.rt < routes.entries@[i2].route.rt,
    ensures
        route is Some,
        route->0 != routes.entries@[i2].route,
{
    assert(routes.entries@[i1].dest == ip);
    let j = choose|j: int| routes.is_best(ip, j) && routes.entries@[j].route == route->0;
    crate::route::lemma_route_selection_monotone(routes, ip, i1, i2, j);
    if route->0 == routes.entries@[i2].route {
        assert(j != i2);
        if j < i2 {
            assert(!(routes.entries@[j].dest == routes.entries@[i2].dest && routes.entries@[j].route.key
                == routes.entries@[i2].route.key));
        } else {
            assert(!(routes.entries@[i2].dest == routes.entries@[j].dest && routes.entries@[i2].route.key
                == routes.entries@[j].route.key));
        }
    }
}

pub open spec fn profile_of(m: Map<u32, NatInfo>, ip: u32) -> Option<NatInfo> {
    if m.contains_key(ip) {
        Some(m[ip])
    } else {
        None
    }
}

pub open spec fn device_row_ok(
    it: DeviceItem,
    p: PeerDeviceInfo,
    m: Map<u32, NatInfo>,
    routes: RouteTable,
    dev: CurrentDeviceInfo,
    current_secret: bool,
) -> bool {
    exists|route: Option<Route>|
        #[trigger] preferred(route, routes, p.virtual_ip) && device_item_ok(
            it,
            p,
            profile_of(m, p.virtual_ip),
            route,
            routes,
            dev,
            current_secret,
        )
}

/// One row per listed peer: its name and address, the NAT profile it last
/// sent (if any), how it is reached and the round-trip time of its preferred
/// route.
pub fn command_list(
    dev: &CurrentDeviceInfo,
    peers: &Vec<PeerDeviceInfo>,
    peer_nat: &HashMap<u32, NatInfo>,
    routes: &RouteTable,
    current_client_secret: bool,
) -> (r: Vec<DeviceItem>)
    ensures
        r@.len() == peers@.len(),
        forall|i: int|
            0 <= i < r@.len() ==> device_row_ok(
                #[trigger] r@[i],
                peers@[i],
                peer_nat@,
                *routes,
                *dev,
                current_client_secret,
            ),
{
    let mut out: Vec<DeviceItem> = Vec::new();
    let mut i: usize = 0;
    while i < peers.len()
        invariant
            i <= peers@.len(),
            out@.len() == i,
            forall|k: int|
                0 <= k < i ==> device_row_ok(
                    #[trigger] out@[k],
                    peers@[k],
                    peer_nat@,
                    *routes,
                    *dev,
                    current_client_secret,
                ),
        decreases peers@.len() - i,
    {
        let p = &peers[i];
        let (nat_type, public_ips, local_ip, ipv6) = match peer_nat.get(&p.virtual_ip) {
            Some(n) => (nat_type_string(n.nat_type), joined_string(&n.public_ips), local_string(n), ipv6_opt_string(n)),
            None => (String::new(), String::new(), String::new(), String::new()),
        };
        let route = routes.route(p.virtual_ip);
        let (nat_traversal_type, rt) = match route {
            Some(r) => {
                let t = if r.metric == 1 {
                    if r.key.is_tcp {
                        String::from_str("tcp-p2p")
                    } else {
                        String::from_str("p2p")
                    }
                } else {
                    match route_to_id(routes, &r.key) {
                        Some(hop) => if dev.is_gateway(hop) {
                            String::from_str("server-relay")
                        } else {
                            String::from_str("client-relay")
                        },
                        None => String::from_str("server-relay"),
                    }
                };
                (t, rt_string(r.rt))
            },
            None => (String::from_str("relay"), String::new()),
        };
        let status = match p.status {
            PeerStatus::Online => String::from_str("Online"),
            PeerStatus::Offline => String::from_str("Offline"),
        };
        let item = DeviceItem {
            name: p.name.clone(),
            virtual_ip: ipv4_string(p.virtual_ip),
            nat_type,
            public_ips,
            local_ip,
            ipv6,
            nat_traversal_type,
            rt,
            status,
            client_secret: p.client_secret,
            current_client_secret,
        };
        out.push(item);
        proof {
            assert(preferred(route, *routes, p.virtual_ip));
            assert(device_item_ok(out@[i as int], peers@[i as int], profile_of(peer_nat@, p.virtual_ip),
                route, *routes, *dev, current_client_secret));
        }
        i = i + 1;
    }
    out
}

/// This node as the control socket reports it.
#[derive(Clone, Debug)]
pub struct Info {
    pub name: String,
    pub virtual_ip: String,
    pub virtual_gateway: String,
    pub virtual_netmask: String,
    pub connect_status: String,
    pub relay_server: String,
    pub nat_type: String,
    pub public_ips: String,
    pub local_addr: String,
    pub ipv6_addr: String,
    pub up: u64,
    pub down: u64,
}

pub open spec fn connect_status_text(s: ConnectStatus) -> Seq<char> {
    match s {
        ConnectStatus::Connecting => "Connecting"@,
        ConnectStatus::Connected => "Connected"@,
        ConnectStatus::Offline => "Offline"@,
    }
}

/// The node's name, overlay addresses, connection status, server, NAT
/// profile and traffic counters.
pub fn command_info(name: &String, dev: &CurrentDeviceInfo, nat_info: &NatInfo, up: u64, down: u64) -> (r: Info)
    ensures
        r.name@ == name@,
        r.virtual_ip@ == ipv4_text(dev.virtual_ip),
        r.virtual_gateway@ == ipv4_text(dev.virtual_gateway),
        r.virtual_netmask@ == ipv4_text(dev.virtual_netmask),
        r.connect_status@ == connect_status_text(dev.status),
        r.relay_server@ == addr_text(dev.connect_server),
        r.nat_type@ == nat_type_text(nat_info.nat_type),
        r.public_ips@ == joined(nat_info.public_ips@),
        r.local_addr@ == local_text(*nat_info),
        r.ipv6_addr@ == ipv6_opt_text(*nat_info),
        r.up == up,
        r.down == down,
{
    let connect_status = match dev.status {
        ConnectStatus::Connecting => String::from_str("Connecting"),
        ConnectStatus::Connected => String::from_str("Connected"),
        ConnectStatus::Offline => String::from_str("Offline"),
    };
    Info {
        name: name.clone(),
        virtual_ip: ipv4_string(dev.virtual_ip),
        virtual_gateway: ipv4_string(dev.virtual_gateway),
        virtual_netmask: ipv4_string(dev.virtual_netmask),
        connect_status,
        relay_server: addr_string(&dev.connect_server),
        nat_type: nat_type_string(nat_info.nat_type),
        public_ips: joined_string(&nat_info.public_ips),
        local_addr: local_string(nat_info),
        ipv6_addr: ipv6_opt_string(nat_info),
        up,
        down,
    }
}

} // verus!
