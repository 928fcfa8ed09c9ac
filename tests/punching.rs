use std::collections::HashSet;
use vnt_core::addr::SockAddr;
use vnt_core::nat_info::{NatInfo, NatType, PunchModel};
use vnt_core::punch::{fine_ports, Punch, PunchStep, StepKind, PORT_COUNT};

fn ip(a: u8, b: u8, c: u8, d: u8) -> u32 {
    u32::from_be_bytes([a, b, c, d])
}

fn cone_peer() -> NatInfo {
    NatInfo::new(vec![ip(2, 2, 2, 2)], vec![50000], 0, Some(ip(192, 168, 1, 3)), None, vec![7000], 0, NatType::Cone)
}

#[test]
fn no_sends_when_a_direct_route_exists() {
    let mut p = Punch::new(PunchModel::All, true);
    let peer = NatInfo::new(vec![ip(2, 2, 2, 2)], vec![50000], 12, Some(ip(192, 168, 1, 3)), Some(5), vec![7000], 8000, NatType::Symmetric);
    assert!(p.punch(false, ip(10, 26, 0, 3), &peer, 2, true).is_empty());
    assert!(p.port_index.is_empty());
    assert!(p.plan(false, ip(10, 26, 0, 3), &cone_peer(), 2, true, &vec![1, 2], 600).is_empty());
}

#[test]
fn cone_to_cone_round() {
    let mut p = Punch::new(PunchModel::IPv4, false);
    let steps = p.plan(true, ip(10, 26, 0, 3), &cone_peer(), 1, true, &vec![], 600);
    assert_eq!(
        steps,
        vec![
            PunchStep { kind: StepKind::Udp, channel: 0, addr: SockAddr::V4 { ip: ip(192, 168, 1, 3), port: 7000 }, stop_on_success: false },
            PunchStep { kind: StepKind::Udp, channel: 0, addr: SockAddr::V4 { ip: ip(2, 2, 2, 2), port: 50000 }, stop_on_success: false },
        ]
    );
}

#[test]
fn symmetric_local_node_sends_from_all_sockets_once() {
    let mut p = Punch::new(PunchModel::IPv4, false);
    let peer = NatInfo::new(vec![ip(2, 2, 2, 2)], vec![50000, 50001], 0, None, None, vec![7000], 0, NatType::Cone);
    let steps = p.plan(true, ip(10, 26, 0, 3), &peer, 2, false, &vec![], 600);
    assert_eq!(
        steps,
        vec![PunchStep { kind: StepKind::UdpAll, channel: 0, addr: SockAddr::V4 { ip: ip(2, 2, 2, 2), port: 50000 }, stop_on_success: false }]
    );
}

#[test]
fn tcp_and_ipv6_attempts_come_first() {
    let mut p = Punch::new(PunchModel::IPv6, true);
    let peer = NatInfo::new(vec![ip(2, 2, 2, 2)], vec![50000], 0, Some(ip(10, 0, 0, 9)), Some(0x2001 << 112), vec![7000], 8000, NatType::Cone);
    let steps = p.plan(true, ip(10, 26, 0, 3), &peer, 1, true, &vec![], 600);
    let kinds: Vec<(StepKind, bool)> = steps.iter().map(|s| (s.kind, s.stop_on_success)).collect();
    assert_eq!(
        kinds,
        vec![
            (StepKind::TcpConnect, true),
            (StepKind::TcpConnect, true),
            (StepKind::TcpConnect, true),
            (StepKind::Udp, false),
            (StepKind::Udp, true),
            (StepKind::Udp, false),
        ]
    );
    assert_eq!(steps[0].addr, SockAddr::V6 { ip6: 0x2001 << 112, port: 8000 });
    assert_eq!(steps[2].addr, SockAddr::V4 { ip: ip(2, 2, 2, 2), port: 8000 });
}

#[test]
fn symmetric_peer_fine_phase_stays_in_range() {
    let mut p = Punch::new(PunchModel::IPv4, false);
    let peer = NatInfo::new(vec![ip(2, 2, 2, 2)], vec![50000], 12, None, None, vec![7000], 0, NatType::Symmetric);
    let steps = p.punch(true, ip(10, 26, 0, 3), &peer, 1, true);
    let ports: Vec<u16> = steps.iter().map(|s| match s.addr {
        SockAddr::V4 { port, .. } => port,
        SockAddr::V6 { port, .. } => port,
    }).collect();
    let fine = &ports[..25];
    let distinct: HashSet<u16> = fine.iter().copied().collect();
    assert_eq!(distinct.len(), 25);
    assert!(fine.iter().all(|p| (49988..=50012).contains(p)));
    let broad = ports.len() - 25;
    assert!((599..799).contains(&broad));
    assert_eq!(p.port_index.get(&ip(10, 26, 0, 3)), Some(&broad));
}

#[test]
fn broad_phase_resumes_where_it_stopped() {
    let mut p = Punch::new(PunchModel::IPv4, false);
    assert_eq!(p.port_vec.len(), PORT_COUNT);
    let peer = NatInfo::new(vec![ip(2, 2, 2, 2), ip(3, 3, 3, 3)], vec![50000], 1000, None, None, vec![7000], 0, NatType::Symmetric);
    let id = ip(10, 26, 0, 3);
    let steps = p.plan(true, id, &peer, 0, true, &vec![], 7);
    assert_eq!(steps.len(), 6);
    assert_eq!(steps[0].addr, SockAddr::V4 { ip: ip(2, 2, 2, 2), port: p.port_vec[0] });
    assert_eq!(steps[1].addr, SockAddr::V4 { ip: ip(3, 3, 3, 3), port: p.port_vec[0] });
    assert_eq!(p.port_index.get(&id), Some(&3));
    let steps = p.plan(true, id, &peer, 0, true, &vec![], 7);
    assert_eq!(steps[0].addr, SockAddr::V4 { ip: ip(2, 2, 2, 2), port: p.port_vec[3] });
}

#[test]
fn fine_ports_are_clamped() {
    assert_eq!(fine_ports(50000, 2), vec![49998, 49999, 50000, 50001, 50002]);
    assert_eq!(fine_ports(2, 5), vec![1, 2, 3, 4, 5, 6, 7]);
    assert_eq!(fine_ports(65534, 3), vec![65531, 65532, 65533, 65534, 65535]);
    assert_eq!(fine_ports(0, 0), Vec::<u16>::new());
}

#[test]
fn port_vector_is_a_permutation() {
    let p = Punch::new(PunchModel::IPv4, false);
    let mut v = p.port_vec.clone();
    v.sort();
    assert_eq!(v, (1..=65535).collect::<Vec<u16>>());
}

#[test]
fn port_vector_is_shuffled() {
    let p = Punch::new(PunchModel::IPv4, false);
    let ascending: Vec<u16> = (1..=65535).collect();
    assert_ne!(p.port_vec, ascending);
}
