use vnt_core::packet::{build_packet, decode_header, Header, GATEWAY_IP, SELF_IP};
use vnt_core::proto::{encode_handshake_request, encode_punch_info, PunchInfo};

fn sample() -> Header {
    Header {
        encrypted: true,
        gateway: true,
        protocol: 3,
        transport: 4,
        ttl: 13,
        source_ttl: 15,
        source: 0x0a1a_0002,
        destination: 0x0a1a_0003,
    }
}

#[test]
fn header_round_trip() {
    let h = sample();
    let b = build_packet(&h, &[9, 8, 7]);
    assert_eq!(b.len(), 15);
    assert_eq!(&b[..12], &[0x1c, 3, 4, 0xdf, 10, 26, 0, 2, 10, 26, 0, 3]);
    assert_eq!(&b[12..], &[9, 8, 7]);
    assert_eq!(decode_header(&b), Some(h));
}

#[test]
fn header_round_trip_all_flag_combinations() {
    for enc in [false, true] {
        for gw in [false, true] {
            let h = Header { encrypted: enc, gateway: gw, ttl: 1, source_ttl: 1, ..sample() };
            let b = build_packet(&h, &[]);
            assert_eq!(decode_header(&b), Some(h));
        }
    }
}

#[test]
fn reserved_bits_are_rejected() {
    let b = build_packet(&sample(), &[]);
    for bit in [1u8, 2u8] {
        let mut c = b.clone();
        c[0] |= bit;
        assert_eq!(decode_header(&c), None);
    }
}

#[test]
fn wrong_version_and_short_buffers_are_rejected() {
    let mut b = build_packet(&sample(), &[]);
    b[0] = (b[0] & 0x0f) | 0x20;
    assert_eq!(decode_header(&b), None);
    let b = build_packet(&sample(), &[]);
    assert_eq!(decode_header(&b[..11]), None);
    assert_eq!(decode_header(&[]), None);
}

#[test]
fn reserved_addresses() {
    assert_eq!(SELF_IP, 0x0a1a_0002);
    assert_eq!(GATEWAY_IP, 0x0a1a_0001);
}

#[test]
fn handshake_request_encoding() {
    assert_eq!(encode_handshake_request(true, b"1.2"), vec![0x08, 0x01, 0x12, 0x03, b'1', b'.', b'2']);
    assert_eq!(encode_handshake_request(false, b"1.2"), vec![0x12, 0x03, b'1', b'.', b'2']);
    assert_eq!(encode_handshake_request(false, b""), Vec::<u8>::new());
}

#[test]
fn punch_info_encoding() {
    let p = PunchInfo {
        reply: true,
        public_ip_list: vec![300],
        public_port: 0,
        public_ports: vec![1, 2],
        public_port_range: 0,
        local_ip: 0,
        local_port: 5,
        tcp_port: 0,
        udp_ports: vec![],
        ipv6: vec![],
        ipv6_port: 0,
        nat_type: 1,
    };
    assert_eq!(
        encode_punch_info(&p),
        vec![0x08, 0x01, 0x12, 0x02, 0xac, 0x02, 0x22, 0x02, 0x01, 0x02, 0x38, 0x05, 0x60, 0x01]
    );
}
