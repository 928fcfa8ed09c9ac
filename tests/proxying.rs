use vnt_core::proxy::{
    drain, forward, is_both_closed, is_read_closed, is_write_closed, may_read, pair_step, read_ends, should_close,
    token_usable, PairEvent, TcpProxy, BOTH_CLOSED, BUF_LEN, NORMAL, READ_CLOSED, WRITE_CLOSED,
};

fn ip(a: u8, b: u8, c: u8, d: u8) -> u32 {
    u32::from_be_bytes([a, b, c, d])
}

fn sum_ok(d: &[u8]) -> bool {
    let mut s: u64 = 0;
    for c in d.chunks(2) {
        s += (c[0] as u64) << 8 | if c.len() > 1 { c[1] as u64 } else { 0 };
    }
    while s > 0xffff {
        s = (s & 0xffff) + (s >> 16);
    }
    s == 0xffff
}

fn tcp_ok(src: u32, dst: u32, seg: &[u8]) -> bool {
    let mut d = Vec::new();
    d.extend_from_slice(&src.to_be_bytes());
    d.extend_from_slice(&dst.to_be_bytes());
    d.extend_from_slice(&[0, 6, 0, seg.len() as u8]);
    d.extend_from_slice(seg);
    sum_ok(&d)
}

fn syn(src: u32, sport: u16, dst: u32, dport: u16) -> Vec<u8> {
    let mut b = vec![0u8; 12];
    b.extend_from_slice(&[0x45, 0, 0, 40, 0, 1, 0, 0, 64, 6, 0, 0]);
    b.extend_from_slice(&src.to_be_bytes());
    b.extend_from_slice(&dst.to_be_bytes());
    b.extend_from_slice(&sport.to_be_bytes());
    b.extend_from_slice(&dport.to_be_bytes());
    b.extend_from_slice(&[0, 0, 0, 1, 0, 0, 0, 0, 0x50, 0x02, 0xff, 0xff, 0, 0, 0, 0]);
    b
}

#[test]
fn state_bits() {
    assert!(!is_read_closed(NORMAL) && !is_write_closed(NORMAL) && !is_both_closed(NORMAL));
    assert!(is_read_closed(READ_CLOSED) && !is_write_closed(READ_CLOSED));
    assert!(is_write_closed(WRITE_CLOSED) && !is_read_closed(WRITE_CLOSED));
    assert!(is_both_closed(BOTH_CLOSED) && is_read_closed(BOTH_CLOSED) && is_write_closed(BOTH_CLOSED));
    assert!(!token_usable(0) && !token_usable(1) && token_usable(7));
}

#[test]
fn half_closed_pairs_are_removed() {
    assert!(should_close(READ_CLOSED, READ_CLOSED, true, true));
    assert!(!should_close(READ_CLOSED, READ_CLOSED, false, true));
    assert!(should_close(WRITE_CLOSED, WRITE_CLOSED, false, false));
    assert!(should_close(BOTH_CLOSED, NORMAL, true, false));
    assert!(!should_close(READ_CLOSED, NORMAL, true, true));
}

#[test]
fn pair_step_follows_the_events() {
    let quiet = PairEvent {
        read_failed: false,
        peer_write_failed: false,
        write_failed: false,
        peer_read_failed: false,
        back_write_failed: false,
        read_closed: false,
        write_closed: false,
        error: false,
    };
    let s = pair_step(NORMAL, NORMAL, quiet, true, true);
    assert_eq!((s.state1, s.state2, s.close), (NORMAL, NORMAL, false));
    let eof = PairEvent { read_failed: true, ..quiet };
    let s = pair_step(NORMAL, NORMAL, eof, true, true);
    assert_eq!(s.state1, READ_CLOSED);
    assert!(s.shut_read1 && s.shut_write2 && !s.shut_write1_read2 && !s.close);
    let s2 = pair_step(NORMAL, READ_CLOSED, eof, true, true);
    assert!(s2.close);
    let err = PairEvent { error: true, ..quiet };
    let s = pair_step(NORMAL, NORMAL, err, false, true);
    assert_eq!(s.state1, BOTH_CLOSED);
    assert!(!s.shut_write2 && !s.close);
    let peer = PairEvent { peer_read_failed: true, ..quiet };
    assert_eq!(pair_step(NORMAL, NORMAL, peer, true, true).state2, READ_CLOSED);
    let stuck = PairEvent { read_failed: true, peer_write_failed: true, ..quiet };
    let s = pair_step(NORMAL, NORMAL, stuck, true, true);
    assert_eq!((s.state1, s.state2), (READ_CLOSED, WRITE_CLOSED));
    let back = PairEvent { peer_read_failed: true, back_write_failed: true, ..quiet };
    let s = pair_step(NORMAL, NORMAL, back, true, true);
    assert_eq!((s.state1, s.state2), (WRITE_CLOSED, READ_CLOSED));
}

#[test]
fn buffered_bytes_keep_their_order() {
    let mut mid = Vec::new();
    forward(&mut mid, b"hello", 2);
    assert_eq!(mid, b"llo".to_vec());
    forward(&mut mid, b" world", 0);
    assert_eq!(mid, b"llo world".to_vec());
    drain(&mut mid, 4);
    assert_eq!(mid, b"world".to_vec());
    drain(&mut mid, 5);
    assert!(mid.is_empty());
    assert!(may_read(BUF_LEN - 1) && !may_read(BUF_LEN));
    assert!(read_ends(0) && !read_ends(1));
}

#[test]
fn inbound_syn_is_redirected_and_reply_restored() {
    let a = ip(10, 26, 0, 2);
    let me = ip(10, 26, 0, 3);
    let real = ip(93, 184, 216, 34);
    let mut proxy = TcpProxy::new(45678);
    let mut b = syn(a, 12345, real, 80);
    proxy.recv_handle(&mut b, 12, a, me);
    assert_eq!(&b[12 + 16..12 + 20], &me.to_be_bytes());
    assert_eq!(&b[12 + 22..12 + 24], &45678u16.to_be_bytes());
    assert!(sum_ok(&b[12..32]));
    assert!(tcp_ok(a, me, &b[32..]));
    assert_eq!(proxy.lookup(a, 12345), Some((real, 80)));
    assert_eq!(proxy.lookup(a, 12346), None);

    let mut reply = syn(me, 45678, a, 12345);
    proxy.send_handle(&mut reply, 12);
    assert_eq!(&reply[12 + 12..12 + 16], &real.to_be_bytes());
    assert_eq!(&reply[12 + 20..12 + 22], &80u16.to_be_bytes());
    assert!(sum_ok(&reply[12..32]));
    assert!(tcp_ok(real, a, &reply[32..]));

    let mut other = syn(me, 45678, a, 999);
    let before = other.clone();
    proxy.send_handle(&mut other, 12);
    assert_eq!(other, before);
}
