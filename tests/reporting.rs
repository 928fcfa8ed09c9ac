use std::collections::HashMap;
use vnt_core::addr::SockAddr;
use vnt_core::cli::{commands_of, Commands};
use vnt_core::command::{addr_string, command_info, command_list, command_route, ipv6_string, CommandEnum};
use vnt_core::device::{ConnectStatus, CurrentDeviceInfo};
use vnt_core::maintain::{PeerDeviceInfo, PeerStatus};
use vnt_core::nat_info::{NatInfo, NatType};
use vnt_core::route::{Route, RouteKey, RouteTable};

fn ip(a: u8, b: u8, c: u8, d: u8) -> u32 {
    u32::from_be_bytes([a, b, c, d])
}

fn device() -> CurrentDeviceInfo {
    CurrentDeviceInfo {
        virtual_ip: ip(10, 26, 0, 2),
        virtual_netmask: ip(255, 255, 255, 0),
        virtual_gateway: ip(10, 26, 0, 1),
        broadcast_ip: ip(10, 26, 0, 255),
        connect_server: SockAddr::V4 { ip: ip(8, 8, 8, 8), port: 29872 },
        status: ConnectStatus::Connected,
    }
}

fn key(a: u32, port: u16, tcp: bool) -> RouteKey {
    RouteKey { index: 0, addr: SockAddr::V4 { ip: a, port }, is_tcp: tcp }
}

#[test]
fn route_rows() {
    let mut t = RouteTable::new(false);
    let server = key(ip(8, 8, 8, 8), 29872, false);
    t.add_route(ip(10, 26, 0, 1), Route { key: server, metric: 1, rt: 12 }, 1);
    t.add_route(ip(10, 26, 0, 3), Route { key: server, metric: 2, rt: -1 }, 1);
    t.add_route(ip(10, 26, 0, 4), Route { key: key(ip(5, 6, 7, 8), 90, true), metric: 1, rt: 3 }, 1);
    let rows = command_route(&t);
    assert_eq!(rows.len(), 3);
    assert_eq!(rows[0].destination, "10.26.0.1");
    assert_eq!(rows[0].next_hop, "10.26.0.1");
    assert_eq!(rows[0].metric, "1");
    assert_eq!(rows[0].rt, "12");
    assert_eq!(rows[0].interface, "8.8.8.8:29872");
    assert_eq!(rows[1].rt, "");
    assert_eq!(rows[1].next_hop, "10.26.0.1");
    assert_eq!(rows[2].interface, "tcp@5.6.7.8:90");
}

#[test]
fn peer_rows() {
    let mut t = RouteTable::new(false);
    let server = key(ip(8, 8, 8, 8), 29872, false);
    t.add_route(ip(10, 26, 0, 1), Route { key: server, metric: 1, rt: 12 }, 1);
    t.add_route(ip(10, 26, 0, 3), Route { key: server, metric: 2, rt: 40 }, 1);
    t.add_route(ip(10, 26, 0, 4), Route { key: key(ip(5, 6, 7, 8), 90, false), metric: 1, rt: 3 }, 1);
    let peers = vec![
        PeerDeviceInfo { virtual_ip: ip(10, 26, 0, 3), name: "b".to_string(), status: PeerStatus::Online, client_secret: false },
        PeerDeviceInfo { virtual_ip: ip(10, 26, 0, 4), name: "c".to_string(), status: PeerStatus::Online, client_secret: true },
        PeerDeviceInfo { virtual_ip: ip(10, 26, 0, 9), name: "d".to_string(), status: PeerStatus::Offline, client_secret: false },
    ];
    let mut nat = HashMap::new();
    nat.insert(
        ip(10, 26, 0, 4),
        NatInfo::new(vec![ip(2, 2, 2, 2)], vec![1], 0, Some(ip(192, 168, 1, 4)), Some(0x2001_0db8u128 << 96), vec![1], 0, NatType::Cone),
    );
    let rows = command_list(&device(), &peers, &nat, &t, true);
    assert_eq!(rows[0].nat_traversal_type, "server-relay");
    assert_eq!(rows[0].rt, "40");
    assert_eq!(rows[0].nat_type, "");
    assert_eq!(rows[1].nat_traversal_type, "p2p");
    assert_eq!(rows[1].nat_type, "Cone");
    assert_eq!(rows[1].public_ips, "2.2.2.2");
    assert_eq!(rows[1].local_ip, "192.168.1.4");
    assert_eq!(rows[1].ipv6, "2001:db8::");
    assert!(rows[1].client_secret && rows[1].current_client_secret);
    assert_eq!(rows[2].nat_traversal_type, "relay");
    assert_eq!(rows[2].status, "Offline");
    assert_eq!(rows[2].virtual_ip, "10.26.0.9");
}

#[test]
fn node_info() {
    let n = NatInfo::new(vec![ip(1, 1, 1, 1), ip(3, 3, 3, 3)], vec![1, 2], 0, None, None, vec![1], 0, NatType::Cone);
    let info = command_info(&"node".to_string(), &device(), &n, 10, 20);
    assert_eq!(info.name, "node");
    assert_eq!(info.virtual_ip, "10.26.0.2");
    assert_eq!(info.virtual_gateway, "10.26.0.1");
    assert_eq!(info.virtual_netmask, "255.255.255.0");
    assert_eq!(info.connect_status, "Connected");
    assert_eq!(info.relay_server, "8.8.8.8:29872");
    assert_eq!(info.nat_type, "Symmetric");
    assert_eq!(info.public_ips, "1.1.1.1,3.3.3.3");
    assert_eq!(info.local_addr, "None");
    assert_eq!(info.ipv6_addr, "None");
    assert_eq!((info.up, info.down), (10, 20));
}

#[test]
fn subcommands_map_to_requests() {
    assert_eq!(commands_of(&Commands::Peer { list: true, info: false, all: true }), vec![CommandEnum::List, CommandEnum::All]);
    assert_eq!(commands_of(&Commands::Route { print: false }), vec![CommandEnum::Route]);
    assert_eq!(commands_of(&Commands::Service { stop: true }), vec![CommandEnum::Stop]);
}

#[test]
fn ipv6_text_is_compressed() {
    let samples: [(u128, &str); 12] = [
        (0, "::"),
        (1, "::1"),
        (0x2001_0db8u128 << 96, "2001:db8::"),
        (0x2001_0db8_0000_0000_0001_0000_0000_0001, "2001:db8::1:0:0:1"),
        (0x2001_0db8_0000_0001_0000_0000_0000_0001, "2001:db8:0:1::1"),
        (0x0001_0000_0001_0000_0000_0001_0000_0001, "1:0:1::1:0:1"),
        (0xffff_0102_0304, "::ffff:1.2.3.4"),
        (0x0102_0304, "::102:304"),
        (0xfe80_0000_0000_0000_0202_b3ff_fe1e_8329, "fe80::202:b3ff:fe1e:8329"),
        (0x2001_0db8_85a3_0000_0000_8a2e_0370_7334, "2001:db8:85a3::8a2e:370:7334"),
        (u128::MAX, "ffff:ffff:ffff:ffff:ffff:ffff:ffff:ffff"),
        (0x0001u128 << 112, "1::"),
    ];
    for (ip, text) in samples {
        assert_eq!(ipv6_string(ip), text);
    }
    let a = SockAddr::V6 { ip6: 1, port: 80 };
    assert_eq!(addr_string(&a), "[::1]:80");
}
