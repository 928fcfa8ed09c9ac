use vnt_core::handshake::{handshake_request_packet, secret_handshake_request_packet, Handshake};
use vnt_core::packet::{decode_header, GATEWAY_IP, PROTOCOL_SERVICE, SELF_IP};

#[test]
fn second_send_within_three_seconds_is_suppressed() {
    let mut h = Handshake::new();
    assert!(h.send(10_000, false).is_some());
    h.sent(10_000);
    assert!(h.send(12_999, false).is_none());
    assert!(h.send(13_000, false).is_some());
    h.sent(13_000);
    assert!(h.send(13_001, true).is_none());
}

#[test]
fn failed_send_leaves_the_clock_free() {
    let h = Handshake::new();
    assert!(h.send(10_000, false).is_some());
    assert!(h.send(10_001, false).is_some());
}

#[test]
fn handshake_packet_layout() {
    let b = handshake_request_packet(true);
    let h = decode_header(&b).unwrap();
    assert!(h.gateway);
    assert_eq!(h.protocol, PROTOCOL_SERVICE);
    assert_eq!(h.transport, 5);
    assert_eq!((h.ttl, h.source_ttl), (15, 15));
    assert_eq!(h.source, SELF_IP);
    assert_eq!(h.destination, GATEWAY_IP);
    assert_eq!(&b[12..], &[0x08, 0x01, 0x12, 0x05, b'1', b'.', b'2', b'.', b'4']);
    let plain = handshake_request_packet(false);
    assert_eq!(&plain[12..], &[0x12, 0x05, b'1', b'.', b'2', b'.', b'4']);
}

#[test]
fn secret_handshake_packet_layout() {
    let b = secret_handshake_request_packet(b"tk", &[1, 2, 3]);
    let h = decode_header(&b).unwrap();
    assert_eq!(h.transport, 7);
    assert_eq!(&b[12..], &[0x0a, 0x02, b't', b'k', 0x12, 0x03, 1, 2, 3]);
}
