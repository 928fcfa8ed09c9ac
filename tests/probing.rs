use vnt_core::addr::SockAddr;
use vnt_core::nat_info::NatType;
use vnt_core::stun::{binding_request_packet, classify, merge, parse_response, pick_addresses, NatProbe, StunAttr};

fn v4(a: u8, b: u8, c: u8, d: u8, port: u16) -> SockAddr {
    SockAddr::V4 { ip: u32::from_be_bytes([a, b, c, d]), port }
}

fn response(attrs: &[(u16, [u8; 4], u16)]) -> Vec<u8> {
    let mut b = vec![0x01, 0x01];
    b.extend_from_slice(&((attrs.len() * 12) as u16).to_be_bytes());
    b.extend_from_slice(&[0x21, 0x12, 0xa4, 0x42]);
    b.extend_from_slice(&[0u8; 12]);
    for (t, ip, port) in attrs {
        b.extend_from_slice(&t.to_be_bytes());
        b.extend_from_slice(&[0, 8, 0, 1]);
        b.extend_from_slice(&port.to_be_bytes());
        b.extend_from_slice(ip);
    }
    b
}

#[test]
fn binding_request_is_a_change_request() {
    let r = binding_request_packet(true, true);
    assert_eq!(&r[..2], &[0x00, 0x01]);
    assert_eq!(r.len(), 28);
    assert_eq!(&r[20..24], &[0x00, 0x03, 0x00, 0x04]);
    assert_eq!(&r[24..28], &[0, 0, 0, 0x60]);
    let mut expected = vec![0x00, 0x01, 0x00, 0x08, 0x21, 0x12, 0xa4, 0x42];
    expected.extend_from_slice(&[0u8; 11]);
    expected.extend_from_slice(&[0x01, 0x00, 0x03, 0x00, 0x04, 0x00, 0x00, 0x00, 0x60]);
    assert_eq!(r, expected);
    assert_eq!(binding_request_packet(true, false)[27], 0x40);
    let plain = binding_request_packet(false, false);
    assert_eq!(&plain[24..28], &[0, 0, 0, 0]);
}

#[test]
fn response_addresses_are_read() {
    let b = response(&[(0x0001, [1, 1, 1, 1], 40000), (0x0005, [9, 9, 9, 9], 3479)]);
    assert_eq!(parse_response(&b), Some((v4(1, 1, 1, 1, 40000), v4(9, 9, 9, 9, 3479))));
    let only_mapped = response(&[(0x0001, [1, 1, 1, 1], 40000)]);
    assert_eq!(parse_response(&only_mapped), Some((v4(1, 1, 1, 1, 40000), v4(1, 1, 1, 1, 40000))));
    assert_eq!(parse_response(&response(&[])), None);
}

#[test]
fn overflowing_attribute_length_is_refused() {
    let mut b = vec![0x01, 0x01, 0x00, 0x04, 0x21, 0x12, 0xa4, 0x42];
    b.extend_from_slice(&[0u8; 12]);
    b.extend_from_slice(&[0x00, 0x01, 0xff, 0xff]);
    assert_eq!(parse_response(&b), None);
}

#[test]
fn first_addresses_win() {
    let attrs = vec![
        StunAttr::Other,
        StunAttr::XorMapped(v4(1, 1, 1, 1, 1)),
        StunAttr::Mapped(v4(2, 2, 2, 2, 2)),
        StunAttr::Changed(v4(3, 3, 3, 3, 3)),
        StunAttr::Changed(v4(4, 4, 4, 4, 4)),
    ];
    assert_eq!(pick_addresses(&attrs), Some((v4(1, 1, 1, 1, 1), v4(3, 3, 3, 3, 3))));
    assert_eq!(pick_addresses(&vec![StunAttr::Changed(v4(3, 3, 3, 3, 3))]), None);
}

#[test]
fn one_server_verdicts() {
    let m1 = v4(1, 1, 1, 1, 40000);
    let c = v4(9, 9, 9, 9, 3479);
    let same = classify(Some((m1, c)), Some(m1));
    assert_eq!((same.nat_type, same.public_ips.clone(), same.port_range), (NatType::Cone, vec![0x0101_0101], 0));
    let moved = classify(Some((m1, c)), Some(v4(1, 1, 1, 1, 40012)));
    assert_eq!((moved.nat_type, moved.port_range), (NatType::Symmetric, 12));
    assert_eq!(moved.public_ips, vec![0x0101_0101]);
    let none = classify(None, None);
    assert_eq!((none.nat_type, none.public_ips.len(), none.port_range), (NatType::Cone, 0, 0));
}

#[test]
fn servers_are_combined() {
    let a = NatProbe { nat_type: NatType::Cone, public_ips: vec![1, 2], port_range: 3 };
    let b = NatProbe { nat_type: NatType::Symmetric, public_ips: vec![2, 3], port_range: 9 };
    let c = NatProbe { nat_type: NatType::Cone, public_ips: vec![], port_range: 1 };
    let m = merge(&vec![a, b, c]);
    assert_eq!((m.nat_type, m.public_ips, m.port_range), (NatType::Symmetric, vec![1, 2, 3], 9));
    let empty = merge(&vec![]);
    assert_eq!((empty.nat_type, empty.public_ips.len(), empty.port_range), (NatType::Cone, 0, 0));
}
