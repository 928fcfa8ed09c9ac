use vnt_core::addr::SockAddr;
use vnt_core::route::{IdleType, Route, RouteKey, RouteTable};

fn key(i: usize, port: u16) -> RouteKey {
    RouteKey { index: i, addr: SockAddr::V4 { ip: 0x0101_0101, port }, is_tcp: false }
}

const PEER: u32 = 0x0a1a_0003;

#[test]
fn lower_metric_wins_by_default() {
    let mut t = RouteTable::new(false);
    let relayed = Route { key: key(0, 1), metric: 2, rt: 5 };
    let direct = Route { key: key(0, 2), metric: 1, rt: 90 };
    t.add_route(PEER, relayed, 10);
    t.add_route(PEER, direct, 5);
    assert_eq!(t.route(PEER), Some(direct));
    assert!(!t.need_punch(PEER));
    assert_eq!(t.route_one_p2p(PEER), Some(direct));
}

#[test]
fn lower_rtt_wins_under_first_latency() {
    let mut t = RouteTable::new(true);
    let fast = Route { key: key(0, 1), metric: 2, rt: 5 };
    let slow = Route { key: key(0, 2), metric: 1, rt: 90 };
    let unmeasured = Route { key: key(0, 3), metric: 1, rt: -1 };
    t.add_route(PEER, slow, 1);
    t.add_route(PEER, unmeasured, 1);
    t.add_route(PEER, fast, 1);
    assert_eq!(t.route(PEER), Some(fast));
}

#[test]
fn ties_go_to_the_most_recently_read_route() {
    let mut t = RouteTable::new(false);
    let a = Route { key: key(0, 1), metric: 1, rt: 10 };
    let b = Route { key: key(0, 2), metric: 1, rt: 10 };
    t.add_route(PEER, a, 1);
    t.add_route(PEER, b, 2);
    assert_eq!(t.route(PEER), Some(b));
    t.update_read_time(PEER, &a.key, 3);
    assert_eq!(t.route(PEER), Some(a));
}

#[test]
fn add_updates_and_add_if_absent_keeps() {
    let mut t = RouteTable::new(false);
    t.add_route(PEER, Route { key: key(0, 1), metric: 2, rt: -1 }, 1);
    t.add_route(PEER, Route { key: key(0, 1), metric: 1, rt: 7 }, 2);
    assert_eq!(t.entries.len(), 1);
    assert_eq!(t.entries[0].route.metric, 1);
    assert_eq!(t.entries[0].route.rt, 7);
    t.add_route_if_absent(PEER, Route { key: key(0, 1), metric: 3, rt: 9 }, 3);
    assert_eq!(t.entries[0].route.metric, 1);
    assert_eq!(t.entries.len(), 1);
}

#[test]
fn remove_route_removes_exactly_that_key() {
    let mut t = RouteTable::new(false);
    t.add_route(PEER, Route { key: key(0, 1), metric: 1, rt: -1 }, 1);
    t.add_route(PEER, Route { key: key(0, 2), metric: 2, rt: -1 }, 1);
    t.remove_route(PEER, &key(0, 1));
    assert_eq!(t.entries.len(), 1);
    assert!(t.need_punch(PEER));
    t.remove_route(PEER, &key(0, 2));
    assert_eq!(t.route(PEER), None);
    t.remove_route(PEER, &key(0, 2));
    assert!(t.entries.is_empty());
}

#[test]
fn aging_reports_timeouts_and_sleeps() {
    let mut t = RouteTable::new(false);
    assert_eq!(t.next_idle(100, 50), IdleType::Idle);
    let r = Route { key: key(0, 1), metric: 1, rt: -1 };
    t.add_route(PEER, r, 100);
    assert_eq!(t.next_idle(120, 50), IdleType::Sleep(30));
    assert_eq!(t.next_idle(150, 50), IdleType::Timeout(PEER, r));
}
