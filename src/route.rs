//! The route table: for each virtual IPv4 destination, the transport
//! endpoints it was heard on, with hop count, round-trip time and the time of
//! the last datagram read from it.
use vstd::prelude::*;
use crate::addr::SockAddr;

verus! {

/// Transport identity of a peer endpoint as seen by this node.
#[derive(Clone, Copy, Debug, PartialEq, Eq, Structural)]
pub struct RouteKey {
    pub index: usize,
    pub addr: SockAddr,
    pub is_tcp: bool,
}

/// A route: its endpoint, its hop count (1 = direct) and its round-trip time
/// in milliseconds (negative: not measured yet).
#[derive(Clone, Copy, Debug, PartialEq, Eq, Structural)]
pub struct Route {
    pub key: RouteKey,
    pub metric: u8,
    pub rt: i64,
}

impl Route {
    /// A route whose round-trip time is not measured yet.
    pub fn from_default_rt(key: RouteKey, metric: u8) -> (r: Route)
        ensures
            r == (Route { key, metric, rt: -1i64 }),
    {
        Route { key, metric, rt: -1 }
    }
}

/// One row of the table.
#[derive(Clone, Copy, Debug, PartialEq, Eq, Structural)]
pub struct RouteEntry {
    pub dest: u32,
    pub route: Route,
    pub read_time: u64,
}

/// The outcome of one aging probe.
#[derive(Clone, Copy, Debug, PartialEq, Eq, Structural)]
pub enum IdleType {
    /// This route has been silent for the whole timeout.
    Timeout(u32, Route),
    /// Nothing expires for this many milliseconds.
    Sleep(u64),
    /// The table is empty.
    Idle,
}

/// The round-trip time as a sort key: an unmeasured time sorts last.
pub open spec fn rt_key(rt: i64) -> i64 {
    if rt < 0 {
        i64::MAX
    } else {
        rt
    }
}

/// Whether entry `a` is preferred to entry `b`: by `(metric, rtt)`, or by
/// `(rtt, metric)` under the first-latency policy; ties go to the more
/// recently read entry.
pub open spec fn better(a: RouteEntry, b: RouteEntry, first_latency: bool) -> bool {
    let (a1, a2, b1, b2) = if first_latency {
        (rt_key(a.route.rt) as int, a.route.metric as int, rt_key(b.route.rt) as int, b.route.metric as int)
    } else {
        (a.route.metric as int, rt_key(a.route.rt) as int, b.route.metric as int, rt_key(b.route.rt) as int)
    };
    a1 < b1 || (a1 == b1 && a2 < b2) || (a1 == b1 && a2 == b2 && a.read_time > b.read_time)
}

/// Whether entry `e` is the route with `key` to `dest`.
pub open spec fn matches(e: RouteEntry, dest: u32, key: RouteKey) -> bool {
    e.dest == dest && e.route.key == key
}

pub open spec fn has_key(s: Seq<RouteEntry>, dest: u32, key: RouteKey) -> bool {
    exists|i: int| 0 <= i < s.len() && matches(#[trigger] s[i], dest, key)
}

/// The rows after inserting or updating `route` for `dest`.
pub open spec fn spec_add_route(s: Seq<RouteEntry>, dest: u32, route: Route, now: u64) -> Seq<RouteEntry> {
    if has_key(s, dest, route.key) {
        s.map_values(
            |e: RouteEntry|
                if matches(e, dest, route.key) {
                    RouteEntry { route, ..e }
                } else {
                    e
                },
        )
    } else {
        s.push(RouteEntry { dest, route, read_time: now })
    }
}

/// The rows after inserting `route` for `dest` unless its key is there.
pub open spec fn spec_add_if_absent(s: Seq<RouteEntry>, dest: u32, route: Route, now: u64) -> Seq<
    RouteEntry,
> {
    if has_key(s, dest, route.key) {
        s
    } else {
        s.push(RouteEntry { dest, route, read_time: now })
    }
}

/// The rows after stamping the route with `key` to `dest` as read at `now`.
pub open spec fn spec_touch(s: Seq<RouteEntry>, dest: u32, key: RouteKey, now: u64) -> Seq<RouteEntry> {
    s.map_values(
        |e: RouteEntry|
            if matches(e, dest, key) {
                RouteEntry { read_time: now, ..e }
            } else {
                e
            },
    )
}

pub struct RouteTable {
    pub entries: Vec<RouteEntry>,
    pub first_latency: bool,
}

impl RouteTable {
    /// A destination holds each route key at most once.
    pub open spec fn wf(&self) -> bool {
        forall|i: int, j: int|
            0 <= i < j < self.entries@.len() ==> !(#[trigger] self.entries@[i].dest
                == #[trigger] self.entries@[j].dest && self.entries@[i].route.key
                == self.entries@[j].route.key)
    }

    pub open spec fn has(&self, dest: u32, key: RouteKey) -> bool {
        has_key(self.entries@, dest, key)
    }

    /// No direct route to `dest` is known.
    pub open spec fn spec_need_punch(&self, dest: u32) -> bool {
        forall|i: int|
            0 <= i < self.entries@.len() && #[trigger] self.entries@[i].dest == dest
                ==> self.entries@[i].route.metric != 1
    }

    /// `i` is an entry for `dest` that no other entry for `dest` beats.
    pub open spec fn is_best(&self, dest: u32, i: int) -> bool {
        &&& 0 <= i < self.entries@.len()
        &&& self.entries@[i].dest == dest
        &&& forall|j: int|
            0 <= j < self.entries@.len() && #[trigger] self.entries@[j].dest == dest ==> !better(
                self.entries@[j],
                self.entries@[i],
                self.first_latency,
            )
    }

    pub fn new(first_latency: bool) -> (r: RouteTable)
        ensures
            r.entries@.len() == 0,
            r.first_latency == first_latency,
            r.wf(),
    {
        RouteTable { entries: Vec::new(), first_latency }
    }

    fn find(&self, dest: u32, key: &RouteKey) -> (r: Option<usize>)
        ensures
            match r {
                Some(i) => i < self.entries@.len() && self.entries@[i as int].dest == dest
                    && self.entries@[i as int].route.key == *key,
                None => !self.has(dest, *key),
            },
    {
        let mut i: usize = 0;
        while i < self.entries.len()
            invariant
                i <= self.entries@.len(),
                forall|k: int|
                    0 <= k < i ==> !(#[trigger] self.entries@[k].dest == dest
                        && self.entries@[k].route.key == *key),
            decreases self.entries@.len() - i,
        {
            let e = self.entries[i];
            if e.dest == dest && e.route.key == *key {
                return Some(i);
            }
            i = i + 1;
        }
        None
    }

    /// Inserts `route` for `dest`, or, when its key is already there, sets
    /// the metric and round-trip time of that entry.
    pub fn add_route(&mut self, dest: u32, route: Route, now: u64)
        requires
            old(self).wf(),
        ensures
            final(self).wf(),
            final(self).first_latency == old(self).first_latency,
            final(self).entries@ == spec_add_route(old(self).entries@, dest, route, now),
    {
        match self.find(dest, &route.key) {
            Some(i) => {
                let e = self.entries[i];
                self.entries.set(i, RouteEntry { route, ..e });
                proof {
                    let f = |e: RouteEntry|
                        if matches(e, dest, route.key) {
                            RouteEntry { route, ..e }
                        } else {
                            e
                        };
                    assert(final(self).entries@ =~= old(self).entries@.map_values(f)) by {
                        assert forall|k: int| 0 <= k < old(self).entries@.len() implies
                            #[trigger] final(self).entries@[k] == f(old(self).entries@[k]) by {
                            if k != i {
                                assert(!(old(self).entries@[k].dest == dest
                                    && old(self).entries@[k].route.key == route.key));
                            }
                        }
                    }
                }
            },
            None => {
                self.entries.push(RouteEntry { dest, route, read_time: now });
            },
        }
    }

    /// Inserts `route` for `dest` unless its key is already there.
    pub fn add_route_if_absent(&mut self, dest: u32, route: Route, now: u64)
        requires
            old(self).wf(),
        ensures
            final(self).wf(),
            final(self).first_latency == old(self).first_latency,
            final(self).entries@ == spec_add_if_absent(old(self).entries@, dest, route, now),
    {
        if self.find(dest, &route.key).is_none() {
            self.entries.push(RouteEntry { dest, route, read_time: now });
        }
    }

    /// Removes the route with `key` to `dest`, if there is one.
    pub fn remove_route(&mut self, dest: u32, key: &RouteKey)
        requires
            old(self).wf(),
        ensures
            final(self).wf(),
            final(self).first_latency == old(self).first_latency,
            !final(self).has(dest, *key),
            old(self).has(dest, *key) ==> exists|i: int|
                0 <= i < old(self).entries@.len() && old(self).entries@[i].dest == dest
                    && old(self).entries@[i].route.key == *key && final(self).entries@ == old(
                    self,
                ).entries@.remove(i),
            !old(self).has(dest, *key) ==> final(self).entries@ == old(self).entries@,
    {
        if let Some(i) = self.find(dest, key) {
            let ghost before = self.entries@;
            self.entries.remove(i);
            proof {
                let after = self.entries@;
                assert forall|a: int, b: int| 0 <= a < b < after.len() implies !(
                    #[trigger] after[a].dest == #[trigger] after[b].dest && after[a].route.key
                        == after[b].route.key) by {
                    let oa = if a < i { a } else { a + 1 };
                    let ob = if b < i { b } else { b + 1 };
                    assert(after[a] == before[oa]);
                    assert(after[b] == before[ob]);
                }
                if self.has(dest, *key) {
                    let k = choose|k: int|
                        0 <= k < after.len() && #[trigger] after[k].dest == dest
                            && after[k].route.key == *key;
                    let ok = if k < i { k } else { k + 1 };
                    assert(after[k] == before[ok]);
                    assert(before[i as int].dest == before[ok].dest);
                }
            }
        }
    }

    /// Stamps the route with `key` to `dest` as read at `now`.
    pub fn update_read_time(&mut self, dest: u32, key: &RouteKey, now: u64)
        requires
            old(self).wf(),
        ensures
            final(self).wf(),
            final(self).first_latency == old(self).first_latency,
            final(self).entries@ == spec_touch(old(self).entries@, dest, *key, now),
    {
        if let Some(i) = self.find(dest, key) {
            let e = self.entries[i];
            self.entries.set(i, RouteEntry { read_time: now, ..e });
            proof {
                let f = |e: RouteEntry|
                    if matches(e, dest, *key) {
                        RouteEntry { read_time: now, ..e }
                    } else {
                        e
                    };
                assert forall|k: int| 0 <= k < old(self).entries@.len() implies
                    #[trigger] final(self).entries@[k] == f(old(self).entries@[k]) by {
                    if k != i {
                        assert(!matches(old(self).entries@[k], dest, *key));
                    }
                }
                assert(final(self).entries@ =~= spec_touch(old(self).entries@, dest, *key, now));
            }
        } else {
            assert(self.entries@ =~= spec_touch(old(self).entries@, dest, *key, now));
        }
    }

    /// Whether no direct (metric 1) route to `dest` is known.
    pub fn need_punch(&self, dest: u32) -> (r: bool)
        ensures
            r == self.spec_need_punch(dest),
    {
        let mut i: usize = 0;
        while i < self.entries.len()
            invariant
                i <= self.entries@.len(),
                forall|k: int|
                    0 <= k < i && #[trigger] self.entries@[k].dest == dest
                        ==> self.entries@[k].route.metric != 1,
            decreases self.entries@.len() - i,
        {
            let e = self.entries[i];
            if e.dest == dest && e.route.metric == 1 {
                return false;
            }
            i = i + 1;
        }
        true
    }

    fn better_exec(&self, a: &RouteEntry, b: &RouteEntry) -> (r: bool)
        ensures
            r == better(*a, *b, self.first_latency),
    {
        let ar: i64 = if a.route.rt < 0 {
            i64::MAX
        } else {
            a.route.rt
        };
        let br: i64 = if b.route.rt < 0 {
            i64::MAX
        } else {
            b.route.rt
        };
        let am = a.route.metric as i64;
        let bm = b.route.metric as i64;
        let (a1, a2, b1, b2) = if self.first_latency {
            (ar, am, br, bm)
        } else {
            (am, ar, bm, br)
        };
        a1 < b1 || (a1 == b1 && a2 < b2) || (a1 == b1 && a2 == b2 && a.read_time > b.read_time)
    }

    /// The preferred route to `dest`, if any route is known.
    pub fn route(&self, dest: u32) -> (r: Option<Route>)
        ensures
            r is None <==> forall|k: int|
                0 <= k < self.entries@.len() ==> #[trigger] self.entries@[k].dest != dest,
            r is Some ==> exists|i: int| self.is_best(dest, i) && self.entries@[i].route == r->0,
    {
        let mut best: Option<usize> = None;
        let mut i: usize = 0;
        while i < self.entries.len()
            invariant
                i <= self.entries@.len(),
                best is None ==> forall|k: int|
                    0 <= k < i ==> #[trigger] self.entries@[k].dest != dest,
                best is Some ==> {
                    let b = best->0 as int;
                    &&& 0 <= b < i
                    &&& self.entries@[b].dest == dest
                    &&& forall|j: int|
                        0 <= j < i && #[trigger] self.entries@[j].dest == dest ==> !better(
                            self.entries@[j],
                            self.entries@[b],
                            self.first_latency,
                        )
                },
            decreases self.entries@.len() - i,
        {
            let e = self.entries[i];
            if e.dest == dest {
                match best {
                    None => {
                        best = Some(i);
                    },
                    Some(b) => {
                        let cur = self.entries[b];
                        if self.better_exec(&e, &cur) {
                            proof {
                                lemma_better_transitive(self.entries@, b as int, i as int, self.first_latency, dest);
                            }
                            best = Some(i);
                        }
                    },
                }
            }
            i = i + 1;
        }
        match best {
            Some(b) => {
                proof {
                    assert(self.is_best(dest, b as int));
                }
                Some(self.entries[b].route)
            },
            None => None,
        }
    }

    /// The direct route to `dest`, if one is known.
    pub fn route_one_p2p(&self, dest: u32) -> (r: Option<Route>)
        ensures
            r is None <==> self.spec_need_punch(dest),
            r is Some ==> r->0.metric == 1 && exists|i: int|
                0 <= i < self.entries@.len() && self.entries@[i].dest == dest
                    && self.entries@[i].route == r->0,
    {
        let mut i: usize = 0;
        while i < self.entries.len()
            invariant
                i <= self.entries@.len(),
                forall|k: int|
                    0 <= k < i && #[trigger] self.entries@[k].dest == dest
                        ==> self.entries@[k].route.metric != 1,
            decreases self.entries@.len() - i,
        {
            let e = self.entries[i];
            if e.dest == dest && e.route.metric == 1 {
                return Some(e.route);
            }
            i = i + 1;
        }
        None
    }

    /// One aging probe at time `now`: the first route silent for at least
    /// `timeout` ms, else how long until the next one can expire.
    pub fn next_idle(&self, now: u64, timeout: u64) -> (r: IdleType)
        ensures
            self.entries@.len() == 0 <==> r == IdleType::Idle,
            r is Timeout ==> exists|i: int|
                0 <= i < self.entries@.len() && self.entries@[i].dest == r->Timeout_0
                    && self.entries@[i].route == r->Timeout_1 && expired(self.entries@[i], now, timeout),
            r is Sleep ==> (forall|i: int|
                0 <= i < self.entries@.len() ==> !expired(#[trigger] self.entries@[i], now, timeout))
                && (exists|i: int|
                0 <= i < self.entries@.len() && r->Sleep_0 == time_left(self.entries@[i], now, timeout))
                && (forall|i: int|
                0 <= i < self.entries@.len() ==> r->Sleep_0 <= time_left(#[trigger] self.entries@[i], now, timeout)),
    {
        if self.entries.len() == 0 {
            return IdleType::Idle;
        }
        let mut min_left: u64 = 0;
        let mut at: usize = 0;
        let mut i: usize = 0;
        while i < self.entries.len()
            invariant
                0 < self.entries@.len(),
                i <= self.entries@.len(),
                at < self.entries@.len(),
                forall|k: int|
                    0 <= k < i ==> !expired(#[trigger] self.entries@[k], now, timeout),
                forall|k: int|
                    0 <= k < i ==> min_left <= time_left(#[trigger] self.entries@[k], now, timeout),
                i > 0 ==> min_left == time_left(self.entries@[at as int], now, timeout),
            decreases self.entries@.len() - i,
        {
            let e = self.entries[i];
            if now >= e.read_time && now - e.read_time >= timeout {
                return IdleType::Timeout(e.dest, e.route);
            }
            let left: u64 = if now >= e.read_time {
                timeout - (now - e.read_time)
            } else {
                timeout
            };
            if i == 0 || left < min_left {
                min_left = left;
                at = i;
            }
            i = i + 1;
        }
        IdleType::Sleep(min_left)
    }
}

/// The entry has been silent for the whole timeout.
pub open spec fn expired(e: RouteEntry, now: u64, timeout: u64) -> bool {
    now >= e.read_time && now - e.read_time >= timeout
}

/// How long until the entry expires (a read time ahead of `now` counts as
/// read at `now`).
pub open spec fn time_left(e: RouteEntry, now: u64, timeout: u64) -> u64 {
    if now >= e.read_time {
        (timeout - (now - e.read_time)) as u64
    } else {
        timeout
    }
}

proof fn lemma_better_transitive(s: Seq<RouteEntry>, b: int, i: int, fl: bool, dest: u32)
    requires
        0 <= b < i < s.len(),
        better(s[i], s[b], fl),
        forall|j: int| 0 <= j < i && #[trigger] s[j].dest == dest ==> !better(s[j], s[b], fl),
    ensures
        forall|j: int| 0 <= j < i && #[trigger] s[j].dest == dest ==> !better(s[j], s[i], fl),
        !better(s[i], s[i], fl),
{
}

/// With two routes to one destination, the default policy never picks the
/// one with the larger metric, and under first-latency never the one with the
/// larger measured round-trip time.
pub proof fn lemma_route_selection_monotone(t: RouteTable, dest: u32, i1: int, i2: int, chosen: int)
    requires
        t.is_best(dest, chosen),
        0 <= i1 < t.entries@.len(),
        0 <= i2 < t.entries@.len(),
        t.entries@[i1].dest == dest,
        t.entries@[i2].dest == dest,
        !t.first_latency ==> t.entries@[i1].route.metric < t.entries@[i2].route.metric,
        t.first_latency ==> 0 <= t.entries@[i1].route.rt < t.entries@[i2].route.rt,
    ensures
        chosen != i2,
{
    assert(better(t.entries@[i1], t.entries@[i2], t.first_latency));
}

} // verus!
