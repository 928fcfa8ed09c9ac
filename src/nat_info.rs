//! NAT profiles of this node and of its peers.
use vstd::prelude::*;
use crate::addr::{
    spec_v4_global,
    spec_v4_usable_local,
    spec_v6_usable,
    v4_global,
    v4_usable_local,
    v6_usable,
    SockAddr,
};

verus! {

/// Which address families the punch engine tries.
#[derive(Clone, Copy, Debug, PartialEq, Eq, Structural)]
pub enum PunchModel {
    IPv4,
    IPv6,
    All,
}

/// What `str::to_lowercase` makes of a text.
pub uninterp spec fn lower_of(s: Seq<char>) -> Seq<char>;

/// What `str::trim` leaves of a text.
pub uninterp spec fn trim_of(s: Seq<char>) -> Seq<char>;

/// Relies on `str::to_lowercase`: the result depends on the characters alone.
#[verifier::external_body]
fn lowercase(s: &str) -> (r: String)
    ensures
        r@ == lower_of(s@),
{
    s.to_lowercase()
}

/// Relies on `str::trim`: the text without leading and trailing white space,
/// which depends on the characters alone.
#[verifier::external_body]
fn trimmed(s: &str) -> (r: &str)
    ensures
        r@ == trim_of(s@),
{
    s.trim()
}

pub open spec fn spec_punch_model_named(t: Seq<char>) -> Option<PunchModel> {
    if t == "ipv4"@ {
        Some(PunchModel::IPv4)
    } else if t == "ipv6"@ {
        Some(PunchModel::IPv6)
    } else if t == "all"@ {
        Some(PunchModel::All)
    } else {
        None
    }
}

impl PunchModel {
    /// The model a normalized name stands for: `ipv4`, `ipv6` or `all`.
    pub fn named(t: &str) -> (r: Option<PunchModel>)
        ensures
            r == spec_punch_model_named(t@),
    {
        let t = t.to_owned();
        if t == String::from_str("ipv4") {
            Some(PunchModel::IPv4)
        } else if t == String::from_str("ipv6") {
            Some(PunchModel::IPv6)
        } else if t == String::from_str("all") {
            Some(PunchModel::All)
        } else {
            None
        }
    }

    /// Parses a model name, ignoring case and surrounding white space.
    pub fn parse(s: &str) -> (r: Result<PunchModel, String>)
        ensures
            match spec_punch_model_named(trim_of(lower_of(s@))) {
                Some(m) => r == Ok::<PunchModel, String>(m),
                None => r is Err && r->Err_0@ == "not match '"@ + s@ + "', enum: ipv4/ipv6/all"@,
            },
    {
        let lower = lowercase(s);
        match PunchModel::named(trimmed(lower.as_str())) {
            Some(m) => Ok(m),
            None => {
                let mut msg = String::from_str("not match '");
                msg.append(s);
                msg.append("', enum: ipv4/ipv6/all");
                Err(msg)
            },
        }
    }
}

impl std::str::FromStr for PunchModel {
    type Err = String;

    fn from_str(s: &str) -> Result<PunchModel, String> {
        PunchModel::parse(s)
    }
}

/// How a NAT maps an internal endpoint to external ones.
#[derive(Clone, Copy, Debug, PartialEq, Eq, Structural)]
pub enum NatType {
    Symmetric,
    Cone,
}

/// The NAT profile of a node: what peers need to reach it.
#[derive(Clone, Debug)]
pub struct NatInfo {
    pub public_ips: Vec<u32>,
    pub public_ports: Vec<u16>,
    pub public_port_range: u16,
    pub nat_type: NatType,
    pub local_ipv4: Option<u32>,
    pub ipv6: Option<u128>,
    pub udp_ports: Vec<u16>,
    pub tcp_port: u16,
}

pub open spec fn global_pred() -> spec_fn(u32) -> bool {
    |ip: u32| spec_v4_global(ip)
}

/// The public addresses that a profile keeps out of `ips`.
pub open spec fn spec_public_filter(ips: Seq<u32>) -> Seq<u32> {
    ips.filter(global_pred())
}

pub open spec fn spec_local_filter(ip: Option<u32>) -> Option<u32> {
    match ip {
        Some(a) => if spec_v4_usable_local(a) {
            Some(a)
        } else {
            None
        },
        None => None,
    }
}

pub open spec fn spec_v6_filter(ip: Option<u128>) -> Option<u128> {
    match ip {
        Some(a) => if spec_v6_usable(a) {
            Some(a)
        } else {
            None
        },
        None => None,
    }
}

/// The NAT type a profile ends up with.
pub open spec fn spec_normalized_type(ips: Seq<u32>, t: NatType) -> NatType {
    if spec_public_filter(ips).len() > 1 {
        NatType::Symmetric
    } else {
        t
    }
}

/// Index of the local port that channel `index` uses.
pub open spec fn spec_port_slot(index: usize, len: nat) -> int {
    (index as int) % (len as int)
}

fn filter_public(ips: Vec<u32>) -> (r: Vec<u32>)
    ensures
        r@ == spec_public_filter(ips@),
{
    let mut out: Vec<u32> = Vec::new();
    let mut i: usize = 0;
    while i < ips.len()
        invariant
            i <= ips@.len(),
            out@ == ips@.subrange(0, i as int).filter(global_pred()),
        decreases ips@.len() - i,
    {
        let ip = ips[i];
        proof {
            reveal(Seq::filter);
            assert(ips@.subrange(0, i + 1).drop_last() =~= ips@.subrange(0, i as int));
        }
        if v4_global(ip) {
            out.push(ip);
        }
        i = i + 1;
    }
    assert(ips@.subrange(0, ips@.len() as int) =~= ips@);
    out
}

impl NatInfo {
    /// Every public address is global.
    pub open spec fn wf(&self) -> bool {
        forall|k: int| 0 <= k < self.public_ips@.len() ==> spec_v4_global(#[trigger] self.public_ips@[k])
    }

    /// Builds a profile: non-global public addresses are dropped, more than
    /// one public address left forces the symmetric type, and unusable local
    /// IPv4 / IPv6 addresses are dropped.
    pub fn new(
        public_ips: Vec<u32>,
        public_ports: Vec<u16>,
        public_port_range: u16,
        local_ipv4: Option<u32>,
        ipv6: Option<u128>,
        udp_ports: Vec<u16>,
        tcp_port: u16,
        nat_type: NatType,
    ) -> (r: Self)
        ensures
            r.public_ips@ == spec_public_filter(public_ips@),
            r.nat_type == spec_normalized_type(public_ips@, nat_type),
            r.local_ipv4 == spec_local_filter(local_ipv4),
            r.ipv6 == spec_v6_filter(ipv6),
            r.public_ports@ == public_ports@,
            r.public_port_range == public_port_range,
            r.udp_ports@ == udp_ports@,
            r.tcp_port == tcp_port,
            r.wf(),
    {
        let ghost given = public_ips@;
        let public_ips = filter_public(public_ips);
        let nat_type = if public_ips.len() > 1 {
            NatType::Symmetric
        } else {
            nat_type
        };
        let local_ipv4 = match local_ipv4 {
            Some(ip) => if v4_usable_local(ip) {
                Some(ip)
            } else {
                None
            },
            None => None,
        };
        let ipv6 = match ipv6 {
            Some(ip) => if v6_usable(ip) {
                Some(ip)
            } else {
                None
            },
            None => None,
        };
        proof {
            broadcast use vstd::seq_lib::group_filter_ensures;
        }
        NatInfo {
            public_ips,
            public_ports,
            public_port_range,
            nat_type,
            local_ipv4,
            ipv6,
            udp_ports,
            tcp_port,
        }
    }

    /// Records an address observed for channel `index`: a nonzero port
    /// replaces that channel's public port, and a global address not yet
    /// listed is appended.
    pub fn update_addr(&mut self, index: usize, ip: u32, port: u16)
        requires
            old(self).wf(),
        ensures
            final(self).wf(),
            final(self).public_ports@ == (if port != 0 && index < old(self).public_ports@.len() {
                old(self).public_ports@.update(index as int, port)
            } else {
                old(self).public_ports@
            }),
            final(self).public_ips@ == (if spec_v4_global(ip) && !old(self).public_ips@.contains(
                ip,
            ) {
                old(self).public_ips@.push(ip)
            } else {
                old(self).public_ips@
            }),
            final(self).public_port_range == old(self).public_port_range,
            final(self).nat_type == old(self).nat_type,
            final(self).local_ipv4 == old(self).local_ipv4,
            final(self).ipv6 == old(self).ipv6,
            final(self).udp_ports@ == old(self).udp_ports@,
            final(self).tcp_port == old(self).tcp_port,
    {
        if port != 0 && index < self.public_ports.len() {
            self.public_ports.set(index, port);
        }
        if v4_global(ip) {
            let mut found = false;
            let mut i: usize = 0;
            while i < self.public_ips.len()
                invariant
                    i <= self.public_ips@.len(),
                    found ==> self.public_ips@.contains(ip),
                    !found ==> forall|k: int| 0 <= k < i ==> self.public_ips@[k] != ip,
                decreases self.public_ips@.len() - i,
            {
                if self.public_ips[i] == ip {
                    assert(self.public_ips@[i as int] == ip);
                    found = true;
                }
                i = i + 1;
            }
            if !found {
                self.public_ips.push(ip);
            }
        }
    }

    pub fn local_ipv4(&self) -> (r: Option<u32>)
        ensures
            r == self.local_ipv4,
    {
        self.local_ipv4
    }

    pub fn ipv6(&self) -> (r: Option<u128>)
        ensures
            r == self.ipv6,
    {
        self.ipv6
    }

    pub open spec fn spec_local_udp_ipv4addr(&self, index: usize) -> Option<SockAddr> {
        if self.udp_ports@.len() == 0 {
            None
        } else {
            match self.local_ipv4 {
                Some(ip) => Some(
                    SockAddr::V4 {
                        ip,
                        port: self.udp_ports@[spec_port_slot(index, self.udp_ports@.len())],
                    },
                ),
                None => None,
            }
        }
    }

    pub open spec fn spec_local_udp_ipv6addr(&self, index: usize) -> Option<SockAddr> {
        if self.udp_ports@.len() == 0 {
            None
        } else {
            match self.ipv6 {
                Some(ip6) => Some(
                    SockAddr::V6 {
                        ip6,
                        port: self.udp_ports@[spec_port_slot(index, self.udp_ports@.len())],
                    },
                ),
                None => None,
            }
        }
    }

    pub open spec fn spec_local_tcp_ipv6addr(&self) -> Option<SockAddr> {
        if self.tcp_port == 0 {
            None
        } else {
            match self.ipv6 {
                Some(ip6) => Some(SockAddr::V6 { ip6, port: self.tcp_port }),
                None => None,
            }
        }
    }

    pub open spec fn spec_local_tcp_ipv4addr(&self) -> Option<SockAddr> {
        if self.tcp_port == 0 {
            None
        } else {
            match self.local_ipv4 {
                Some(ip) => Some(SockAddr::V4 { ip, port: self.tcp_port }),
                None => None,
            }
        }
    }

    /// The local IPv4 endpoint of UDP channel `index` (ports are reused
    /// cyclically when the peer has fewer of them).
    pub fn local_udp_ipv4addr(&self, index: usize) -> (r: Option<SockAddr>)
        ensures
            r == self.spec_local_udp_ipv4addr(index),
    {
        let len = self.udp_ports.len();
        if len == 0 {
            return None;
        }
        match self.local_ipv4 {
            Some(ip) => Some(SockAddr::V4 { ip, port: self.udp_ports[index % len] }),
            None => None,
        }
    }

    /// The local IPv6 endpoint of UDP channel `index`.
    pub fn local_udp_ipv6addr(&self, index: usize) -> (r: Option<SockAddr>)
        ensures
            r == self.spec_local_udp_ipv6addr(index),
    {
        let len = self.udp_ports.len();
        if len == 0 {
            return None;
        }
        match self.ipv6 {
            Some(ip6) => Some(SockAddr::V6 { ip6, port: self.udp_ports[index % len] }),
            None => None,
        }
    }

    pub fn local_tcp_ipv6addr(&self) -> (r: Option<SockAddr>)
        ensures
            r == self.spec_local_tcp_ipv6addr(),
    {
        if self.tcp_port == 0 {
            return None;
        }
        match self.ipv6 {
            Some(ip6) => Some(SockAddr::V6 { ip6, port: self.tcp_port }),
            None => None,
        }
    }

    pub fn local_tcp_ipv4addr(&self) -> (r: Option<SockAddr>)
        ensures
            r == self.spec_local_tcp_ipv4addr(),
    {
        if self.tcp_port == 0 {
            return None;
        }
        match self.local_ipv4 {
            Some(ip) => Some(SockAddr::V4 { ip, port: self.tcp_port }),
            None => None,
        }
    }
}

/// Public addresses of a profile are global, and a profile built from two or
/// more public addresses that survive filtering is symmetric.
pub proof fn lemma_nat_profile_normalized(ips: Seq<u32>, t: NatType, r: NatInfo)
    requires
        r.public_ips@ == spec_public_filter(ips),
        r.nat_type == spec_normalized_type(ips, t),
    ensures
        forall|k: int|
            0 <= k < r.public_ips@.len() ==> {
                let ip = #[trigger] r.public_ips@[k];
                !crate::addr::spec_v4_multicast(ip) && !crate::addr::spec_v4_broadcast(ip)
                    && !crate::addr::spec_v4_unspecified(ip) && !crate::addr::spec_v4_loopback(ip)
                    && !crate::addr::spec_v4_private(ip)
            },
        r.public_ips@.len() >= 2 ==> r.nat_type == NatType::Symmetric,
{
    broadcast use vstd::seq_lib::group_filter_ensures;

}

} // verus!
