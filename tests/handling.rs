use vnt_core::addr::SockAddr;
use vnt_core::device::{ConnectStatus, CurrentDeviceInfo};
use vnt_core::handler::{AllowExternalRoute, ClientPacketHandler, HandleAction, Handled, PunchQueue};
use vnt_core::nat_info::{NatInfo, NatType};
use vnt_core::packet::{build_packet, decode_header, Header};
use vnt_core::proto::PunchInfo;
use vnt_core::proxy::TcpProxy;
use vnt_core::route::{Route, RouteKey, RouteTable};

const A: u32 = 0x0a1a_0002;
const B: u32 = 0x0a1a_0003;

fn ip(a: u8, b: u8, c: u8, d: u8) -> u32 {
    u32::from_be_bytes([a, b, c, d])
}

fn own_profile() -> NatInfo {
    NatInfo::new(vec![ip(1, 1, 1, 1)], vec![40000], 0, Some(ip(192, 168, 1, 2)), None, vec![5000], 0, NatType::Cone)
}

fn handler(relay_only: bool, proxy: Option<TcpProxy>) -> ClientPacketHandler {
    ClientPacketHandler::new(AllowExternalRoute { nets: vec![(0, 0)] }, proxy, relay_only, own_profile())
}

fn device(vip: u32) -> CurrentDeviceInfo {
    CurrentDeviceInfo {
        virtual_ip: vip,
        virtual_netmask: 0xffff_ff00,
        virtual_gateway: 0x0a1a_0001,
        broadcast_ip: 0x0a1a_00ff,
        connect_server: SockAddr::V4 { ip: ip(8, 8, 8, 8), port: 29872 },
        status: ConnectStatus::Connected,
    }
}

fn key() -> RouteKey {
    RouteKey { index: 0, addr: SockAddr::V4 { ip: ip(2, 2, 2, 2), port: 50000 }, is_tcp: false }
}

fn control(transport: u8, ttl: u8, source_ttl: u8, payload: &[u8]) -> Vec<u8> {
    let h = Header { encrypted: false, gateway: false, protocol: 3, transport, ttl, source_ttl, source: B, destination: A };
    build_packet(&h, payload)
}

fn sum_ok(d: &[u8]) -> bool {
    let mut s: u64 = 0;
    for c in d.chunks(2) {
        let w = (c[0] as u64) << 8 | if c.len() > 1 { c[1] as u64 } else { 0 };
        s += w;
    }
    while s > 0xffff {
        s = (s & 0xffff) + (s >> 16);
    }
    s == 0xffff
}

fn echo_request(src: u32, dst: u32) -> Vec<u8> {
    let mut ipv4 = vec![0x45, 0, 0, 28, 0, 1, 0, 0, 64, 1, 0, 0];
    ipv4.extend_from_slice(&src.to_be_bytes());
    ipv4.extend_from_slice(&dst.to_be_bytes());
    ipv4.extend_from_slice(&[8, 0, 0, 0, 0x12, 0x34, 0, 1]);
    let h = Header { encrypted: false, gateway: false, protocol: 4, transport: 4, ttl: 15, source_ttl: 15, source: src, destination: dst };
    build_packet(&h, &ipv4)
}

#[test]
fn ping_is_answered_with_pong_and_records_the_route() {
    let mut hd = handler(false, None);
    let mut routes = RouteTable::new(false);
    let b = control(1, 13, 15, &[0, 7, 0, 1]);
    match hd.handle(b, key(), &device(A), &mut routes, 1000, 5) {
        Handled::Done(HandleAction::Reply(r)) => {
            let h = decode_header(&r).unwrap();
            assert_eq!(h.transport, 2);
            assert_eq!((h.source, h.destination), (A, B));
            assert_eq!((h.ttl, h.source_ttl), (15, 15));
            assert_eq!(&r[12..], &[0, 7, 0, 1]);
        }
        _ => panic!("expected a pong"),
    }
    assert_eq!(routes.route(B), Some(Route { key: key(), metric: 3, rt: -1 }));
}

#[test]
fn pong_sets_the_round_trip_time() {
    let mut hd = handler(false, None);
    let mut routes = RouteTable::new(false);
    let b = control(2, 15, 15, &[0x01, 0x00, 0, 0]);
    assert!(matches!(hd.handle(b, key(), &device(A), &mut routes, 1, 0x0164), Handled::Done(HandleAction::Drop)));
    assert_eq!(routes.route(B), Some(Route { key: key(), metric: 1, rt: 100 }));
    let late = control(2, 15, 15, &[0x02, 0x00, 0, 0]);
    let mut fresh = RouteTable::new(false);
    hd.handle(late, key(), &device(A), &mut fresh, 1, 0x0164);
    assert_eq!(fresh.route(B), None);
}

#[test]
fn punch_request_gets_a_response_and_a_direct_route() {
    let mut hd = handler(false, None);
    let mut routes = RouteTable::new(false);
    match hd.handle(control(3, 15, 15, &[]), key(), &device(A), &mut routes, 1, 0) {
        Handled::Done(HandleAction::Reply(r)) => {
            let h = decode_header(&r).unwrap();
            assert_eq!(h.transport, 4);
            assert_eq!((h.ttl, h.source_ttl), (1, 1));
            assert_eq!((h.source, h.destination), (A, B));
        }
        _ => panic!("expected a punch response"),
    }
    assert_eq!(routes.route_one_p2p(B), Some(Route { key: key(), metric: 1, rt: -1 }));
    assert!(!routes.need_punch(B));
    let mut other = RouteTable::new(false);
    let mut hb = handler(false, None);
    hb.handle(control(4, 1, 1, &[]), key(), &device(B), &mut other, 1, 0);
    assert!(!other.need_punch(B));
}

#[test]
fn relay_only_mode_ignores_punch_requests() {
    let mut hd = handler(true, None);
    let mut routes = RouteTable::new(false);
    assert!(matches!(
        hd.handle(control(3, 15, 15, &[]), key(), &device(A), &mut routes, 1, 0),
        Handled::Done(HandleAction::Drop)
    ));
    assert!(routes.need_punch(B));
    let relayed = control(1, 13, 15, &[0, 0, 0, 0]);
    hd.handle(relayed, key(), &device(A), &mut routes, 1, 0);
    assert!(routes.route(B).unwrap().metric > 1);
    let punch = build_packet(&Header { encrypted: false, gateway: false, protocol: 5, transport: 1, ttl: 15, source_ttl: 15, source: B, destination: A }, &[]);
    assert!(matches!(hd.handle(punch, key(), &device(A), &mut routes, 1, 0), Handled::Done(HandleAction::Drop)));
}

#[test]
fn addr_request_reports_the_observed_endpoint() {
    let mut hd = handler(false, None);
    let mut routes = RouteTable::new(false);
    match hd.handle(control(5, 15, 15, &[]), key(), &device(A), &mut routes, 1, 0) {
        Handled::Done(HandleAction::Reply(r)) => {
            let h = decode_header(&r).unwrap();
            assert_eq!(h.transport, 6);
            assert_eq!(&r[12..], &[2, 2, 2, 2, 0xc3, 0x50]);
        }
        _ => panic!("expected an address response"),
    }
    let v6 = RouteKey { index: 0, addr: SockAddr::V6 { ip6: 1 << 120, port: 1 }, is_tcp: false };
    assert!(matches!(hd.handle(control(5, 15, 15, &[]), v6, &device(A), &mut routes, 1, 0), Handled::Done(HandleAction::Drop)));
}

#[test]
fn echo_request_to_self_is_reflected() {
    let mut hd = handler(false, None);
    let mut routes = RouteTable::new(false);
    let b = echo_request(A, A);
    match hd.handle(b, key(), &device(A), &mut routes, 1, 0) {
        Handled::Done(HandleAction::Reply(r)) => {
            assert_eq!(r.len(), 12 + 28);
            let ipv4 = &r[12..];
            assert_eq!(ipv4[20], 0);
            assert_eq!(&ipv4[24..28], &[0x12, 0x34, 0, 1]);
            assert!(sum_ok(&ipv4[20..]));
            assert!(sum_ok(&ipv4[..20]));
        }
        _ => panic!("expected an echo reply"),
    }
}

#[test]
fn echo_request_to_a_peer_swaps_addresses() {
    let mut hd = handler(false, None);
    let mut routes = RouteTable::new(false);
    let b = echo_request(B, A);
    match hd.handle(b, key(), &device(A), &mut routes, 1, 0) {
        Handled::Done(HandleAction::Reply(r)) => {
            let h = decode_header(&r).unwrap();
            assert_eq!((h.source, h.destination), (A, B));
            assert_eq!(&r[12 + 12..12 + 16], &A.to_be_bytes());
            assert_eq!(&r[12 + 16..12 + 20], &B.to_be_bytes());
            assert!(sum_ok(&r[12..32]));
            assert!(sum_ok(&r[32..]));
        }
        _ => panic!("expected an echo reply"),
    }
}

#[test]
fn other_traffic_goes_to_the_interface() {
    let mut hd = handler(false, None);
    let mut routes = RouteTable::new(false);
    let mut b = echo_request(B, A);
    b[12 + 20] = 0;
    let inner = b[12..].to_vec();
    match hd.handle(b, key(), &device(A), &mut routes, 1, 0) {
        Handled::Done(HandleAction::ToTun(v)) => assert_eq!(v, inner),
        _ => panic!("expected delivery"),
    }
}

#[test]
fn external_destinations_obey_the_allow_list() {
    let mut hd = ClientPacketHandler::new(AllowExternalRoute { nets: vec![(ip(192, 168, 0, 0), 0xffff_0000)] }, None, false, own_profile());
    let mut routes = RouteTable::new(false);
    let mut b = echo_request(B, A);
    b[12 + 16..12 + 20].copy_from_slice(&ip(93, 184, 216, 34).to_be_bytes());
    assert!(matches!(hd.handle(b.clone(), key(), &device(A), &mut routes, 1, 0), Handled::Done(HandleAction::Drop)));
    b[12 + 16..12 + 20].copy_from_slice(&ip(192, 168, 3, 4).to_be_bytes());
    assert!(matches!(hd.handle(b, key(), &device(A), &mut routes, 1, 0), Handled::Done(HandleAction::ToTun(_))));
}

#[test]
fn undecodable_datagrams_are_dropped() {
    let mut hd = handler(false, None);
    let mut routes = RouteTable::new(false);
    assert!(matches!(hd.handle(vec![0x20; 12], key(), &device(A), &mut routes, 1, 0), Handled::Done(HandleAction::Drop)));
    assert!(routes.entries.is_empty());
}

#[test]
fn punch_descriptor_is_recorded_and_answered() {
    let mut hd = handler(false, None);
    let p = PunchInfo {
        reply: false,
        public_ip_list: vec![ip(1, 1, 1, 1)],
        public_port: 40000,
        public_ports: vec![],
        public_port_range: 0,
        local_ip: ip(192, 168, 1, 2),
        local_port: 5000,
        tcp_port: 0,
        udp_ports: vec![],
        ipv6: vec![],
        ipv6_port: 0,
        nat_type: 1,
    };
    let o = hd.other_turn(A, B, &p);
    assert_eq!(o.peer, A);
    assert_eq!(o.peer_info.public_ports, vec![40000]);
    assert_eq!(o.peer_info.udp_ports, vec![5000]);
    assert_eq!(o.peer_info.nat_type, NatType::Cone);
    assert_eq!(o.queue, PunchQueue::PeerCone);
    let reply = o.reply.expect("a reply");
    let h = decode_header(&reply).unwrap();
    assert_eq!((h.protocol, h.transport, h.source, h.destination), (5, 1, B, A));
    let cached = &hd.peer_nat_info_map[&A];
    assert_eq!(cached.public_ips, vec![ip(1, 1, 1, 1)]);
    assert_eq!(cached.public_ports, vec![40000]);
    assert_eq!(cached.nat_type, NatType::Cone);
    let answer = PunchInfo { reply: true, ..p };
    let o = hd.other_turn(A, B, &answer);
    assert!(o.reply.is_none());
    assert_eq!(o.queue, PunchQueue::SelfCone);
}

#[test]
fn cone_peers_punch_each_other() {
    let mut a_routes = RouteTable::new(false);
    let mut b_routes = RouteTable::new(false);
    let mut ha = handler(false, None);
    let mut hb = handler(false, None);
    let to_b = build_packet(&Header { encrypted: false, gateway: false, protocol: 3, transport: 3, ttl: 1, source_ttl: 1, source: A, destination: B }, &[]);
    let a_key = RouteKey { index: 0, addr: SockAddr::V4 { ip: ip(1, 1, 1, 1), port: 40000 }, is_tcp: false };
    let b_key = RouteKey { index: 0, addr: SockAddr::V4 { ip: ip(2, 2, 2, 2), port: 50000 }, is_tcp: false };
    let response = match hb.handle(to_b, a_key, &device(B), &mut b_routes, 1, 0) {
        Handled::Done(HandleAction::Reply(r)) => r,
        _ => panic!("expected a punch response"),
    };
    ha.handle(response, b_key, &device(A), &mut a_routes, 2, 0);
    assert_eq!(a_routes.route_one_p2p(B).map(|r| r.metric), Some(1));
    assert_eq!(b_routes.route_one_p2p(A).map(|r| r.metric), Some(1));
}
