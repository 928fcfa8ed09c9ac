use vnt_core::addr::SockAddr;
use vnt_core::device::{ConnectStatus, CurrentDeviceInfo};
use vnt_core::maintain::{
    domain_request0, idle_route0, punch0, punch_request_delay, punch_request_packet, punch_targets, GatewayState,
    PeerDeviceInfo, PeerStatus,
};
use vnt_core::packet::decode_header;
use vnt_core::route::{IdleType, Route, RouteKey, RouteTable};

const GW: u32 = 0x0a1a_0001;

fn device(status: ConnectStatus) -> CurrentDeviceInfo {
    CurrentDeviceInfo {
        virtual_ip: 0x0a1a_0002,
        virtual_netmask: 0xffff_ff00,
        virtual_gateway: GW,
        broadcast_ip: 0x0a1a_00ff,
        connect_server: SockAddr::V4 { ip: 0x0808_0808, port: 29872 },
        status,
    }
}

fn key() -> RouteKey {
    RouteKey { index: 0, addr: SockAddr::V4 { ip: 0x0808_0808, port: 29872 }, is_tcp: false }
}

#[test]
fn gateway_loss_reconnects() {
    let mut routes = RouteTable::new(false);
    let mut dev = device(ConnectStatus::Connected);
    routes.add_route(GW, Route { key: key(), metric: 1, rt: 5 }, 0);
    let step = idle_route0(&mut routes, &mut dev, 1_000, 10_000);
    assert_eq!(step.idle, IdleType::Sleep(9_000));
    routes.add_route(0x0a1a_0007, Route { key: key(), metric: 2, rt: 5 }, 500);
    assert_eq!(idle_route0(&mut routes, &mut dev, 1_000, 10_000).delay_ms, 9_000);
    routes.remove_route(0x0a1a_0007, &key());
    assert_eq!(step.delay_ms, 9_000);
    let step = idle_route0(&mut routes, &mut dev, 10_000, 10_000);
    assert!(step.disconnected);
    assert_eq!(step.delay_ms, 100);
    assert_eq!(dev.status, ConnectStatus::Connecting);
    assert!(routes.entries.is_empty());
    let step = idle_route0(&mut routes, &mut dev, 10_100, 10_000);
    assert_eq!((step.idle, step.delay_ms), (IdleType::Idle, 3000));

    let mut gw = GatewayState::new(0);
    let tick = gw.tick(dev.status, 5_000, false);
    assert_eq!(tick.connect_attempt, Some(1));
    assert!(tick.resolve);
    let hs = tick.handshake.expect("a handshake");
    assert_eq!(decode_header(&hs).unwrap().destination, GW);
    gw.handshake.sent(5_000);
    let tick = gw.tick(dev.status, 7_000, false);
    assert!(tick.handshake.is_none());
    assert_eq!(tick.connect_attempt, Some(2));
    dev.status = ConnectStatus::Connected;
    let tick = gw.tick(dev.status, 20_000, false);
    assert!(tick.handshake.is_none() && tick.connect_attempt.is_none());
}

#[test]
fn peer_timeout_keeps_status() {
    let mut routes = RouteTable::new(false);
    let mut dev = device(ConnectStatus::Connected);
    routes.add_route(0x0a1a_0003, Route { key: key(), metric: 2, rt: 5 }, 0);
    let step = idle_route0(&mut routes, &mut dev, 20_000, 10_000);
    assert!(!step.disconnected);
    assert_eq!(dev.status, ConnectStatus::Connected);
}

#[test]
fn server_address_change_is_adopted() {
    let dev = device(ConnectStatus::Connecting);
    let moved = SockAddr::V4 { ip: 0x0909_0909, port: 29872 };
    assert_eq!(domain_request0(&dev, Some(moved)).connect_server, moved);
    assert_eq!(domain_request0(&dev, None), dev);
}

#[test]
fn punch_negotiation_schedule() {
    let table = [3u64, 5, 7, 11, 13, 17, 19, 23, 29];
    for c in 0..20 {
        assert_eq!(punch_request_delay(true, c), table[c % 9]);
    }
    assert_eq!(punch_request_delay(false, 4), 3);
}

#[test]
fn at_most_two_higher_peers_are_asked() {
    let mut routes = RouteTable::new(false);
    routes.add_route(0x0a1a_0005, Route { key: key(), metric: 1, rt: 1 }, 0);
    let order = vec![0x0a1a_0005, 0x0a1a_0003, 0x0a1a_0004, 0x0a1a_0006];
    assert_eq!(punch_targets(&order, &routes), vec![0x0a1a_0003, 0x0a1a_0004]);
    let peers: Vec<PeerDeviceInfo> = [(1u32, PeerStatus::Online), (3, PeerStatus::Online), (4, PeerStatus::Offline), (5, PeerStatus::Online), (6, PeerStatus::Online)]
        .iter()
        .map(|(n, s)| PeerDeviceInfo { virtual_ip: 0x0a1a_0000 + n, name: String::new(), status: *s, client_secret: false })
        .collect();
    let chosen = punch0(&peers, 0x0a1a_0002, &routes);
    assert_eq!(chosen.len(), 2);
    assert!(chosen.iter().all(|ip| *ip == 0x0a1a_0003 || *ip == 0x0a1a_0006));
    let b = punch_request_packet(0x0a1a_0002, 0x0a1a_0003);
    let h = decode_header(&b).unwrap();
    assert_eq!((h.protocol, h.transport, h.ttl, h.source_ttl), (3, 3, 1, 1));
    assert_eq!(b.len(), 12);
}
