use vnt_core::addr::SockAddr;
use vnt_core::nat_info::{NatInfo, NatType, PunchModel};

fn ip(a: u8, b: u8, c: u8, d: u8) -> u32 {
    u32::from_be_bytes([a, b, c, d])
}

fn profile(ips: Vec<u32>, t: NatType) -> NatInfo {
    NatInfo::new(ips, vec![40000], 0, Some(ip(192, 168, 1, 2)), None, vec![5000, 5001], 0, t)
}

#[test]
fn non_global_public_addresses_are_dropped() {
    let ips = vec![
        ip(224, 0, 0, 1),
        ip(255, 255, 255, 255),
        ip(0, 0, 0, 0),
        ip(127, 0, 0, 1),
        ip(10, 1, 2, 3),
        ip(172, 16, 0, 1),
        ip(172, 31, 255, 255),
        ip(192, 168, 0, 1),
        ip(1, 1, 1, 1),
        ip(172, 32, 0, 1),
    ];
    let n = profile(ips, NatType::Cone);
    assert_eq!(n.public_ips, vec![ip(1, 1, 1, 1), ip(172, 32, 0, 1)]);
    assert_eq!(n.nat_type, NatType::Symmetric);
}

#[test]
fn one_public_address_keeps_the_type() {
    let n = profile(vec![ip(1, 1, 1, 1), ip(10, 0, 0, 1)], NatType::Cone);
    assert_eq!(n.public_ips, vec![ip(1, 1, 1, 1)]);
    assert_eq!(n.nat_type, NatType::Cone);
}

#[test]
fn unusable_local_addresses_are_dropped() {
    let n = NatInfo::new(vec![], vec![], 0, Some(ip(127, 0, 0, 1)), Some(1), vec![1], 0, NatType::Cone);
    assert_eq!(n.local_ipv4, None);
    assert_eq!(n.ipv6, None);
    let n = NatInfo::new(vec![], vec![], 0, Some(ip(10, 0, 0, 5)), Some(0xff02 << 112), vec![1], 0, NatType::Cone);
    assert_eq!(n.local_ipv4, Some(ip(10, 0, 0, 5)));
    assert_eq!(n.ipv6, None);
    let v6 = 0x2001_0db8u128 << 96;
    let n = NatInfo::new(vec![], vec![], 0, None, Some(v6), vec![1], 0, NatType::Cone);
    assert_eq!(n.ipv6, Some(v6));
}

#[test]
fn update_addr_records_ports_and_new_addresses() {
    let mut n = profile(vec![ip(1, 1, 1, 1)], NatType::Cone);
    n.update_addr(0, ip(2, 2, 2, 2), 41000);
    assert_eq!(n.public_ports, vec![41000]);
    assert_eq!(n.public_ips, vec![ip(1, 1, 1, 1), ip(2, 2, 2, 2)]);
    n.update_addr(0, ip(2, 2, 2, 2), 0);
    assert_eq!(n.public_ports, vec![41000]);
    assert_eq!(n.public_ips.len(), 2);
    n.update_addr(5, ip(192, 168, 0, 9), 7);
    assert_eq!(n.public_ports, vec![41000]);
    assert_eq!(n.public_ips.len(), 2);
}

#[test]
fn local_endpoints_cycle_through_ports() {
    let n = NatInfo::new(vec![], vec![], 0, Some(ip(10, 0, 0, 5)), Some(7), vec![5000, 5001], 6000, NatType::Cone);
    assert_eq!(n.local_udp_ipv4addr(0), Some(SockAddr::V4 { ip: ip(10, 0, 0, 5), port: 5000 }));
    assert_eq!(n.local_udp_ipv4addr(3), Some(SockAddr::V4 { ip: ip(10, 0, 0, 5), port: 5001 }));
    assert_eq!(n.local_udp_ipv6addr(2), Some(SockAddr::V6 { ip6: 7, port: 5000 }));
    assert_eq!(n.local_tcp_ipv4addr(), Some(SockAddr::V4 { ip: ip(10, 0, 0, 5), port: 6000 }));
    assert_eq!(n.local_tcp_ipv6addr(), Some(SockAddr::V6 { ip6: 7, port: 6000 }));
    let none = NatInfo::new(vec![], vec![], 0, Some(ip(10, 0, 0, 5)), None, vec![], 0, NatType::Cone);
    assert_eq!(none.local_udp_ipv4addr(0), None);
    assert_eq!(none.local_tcp_ipv4addr(), None);
    assert_eq!(none.local_ipv4(), Some(ip(10, 0, 0, 5)));
    assert_eq!(none.ipv6(), None);
}

#[test]
fn punch_model_parsing() {
    assert_eq!("all".parse::<PunchModel>(), Ok(PunchModel::All));
    assert_eq!(PunchModel::parse(" IPv4 "), Ok(PunchModel::IPv4));
    assert_eq!(PunchModel::parse("ipv6"), Ok(PunchModel::IPv6));
    assert_eq!(PunchModel::parse("ALL"), Ok(PunchModel::All));
    assert_eq!(
        PunchModel::parse("udp"),
        Err("not match 'udp', enum: ipv4/ipv6/all".to_string())
    );
}
