//! IPv4/IPv6 addresses held as plain integers, and socket addresses.
use vstd::prelude::*;

verus! {

/// First octet of an IPv4 address held in host order.
pub open spec fn octet0(ip: u32) -> u32 {
    ip >> 24u32
}

/// Second octet of an IPv4 address held in host order.
pub open spec fn octet1(ip: u32) -> u32 {
    (ip >> 16u32) & 0xffu32
}

pub open spec fn spec_v4_unspecified(ip: u32) -> bool {
    ip == 0
}

pub open spec fn spec_v4_loopback(ip: u32) -> bool {
    octet0(ip) == 127
}

pub open spec fn spec_v4_private(ip: u32) -> bool {
    octet0(ip) == 10 || (octet0(ip) == 172 && 16 <= octet1(ip) && octet1(ip) < 32) || (octet0(
        ip,
    ) == 192 && octet1(ip) == 168)
}

pub open spec fn spec_v4_multicast(ip: u32) -> bool {
    224 <= octet0(ip) && octet0(ip) < 240
}

pub open spec fn spec_v4_broadcast(ip: u32) -> bool {
    ip == 0xffff_ffffu32
}

/// An address that may stand in the list of public addresses of a NAT profile.
pub open spec fn spec_v4_global(ip: u32) -> bool {
    !spec_v4_multicast(ip) && !spec_v4_broadcast(ip) && !spec_v4_unspecified(ip)
        && !spec_v4_loopback(ip) && !spec_v4_private(ip)
}

/// An address that may stand as the local IPv4 address of a NAT profile.
pub open spec fn spec_v4_usable_local(ip: u32) -> bool {
    !spec_v4_multicast(ip) && !spec_v4_broadcast(ip) && !spec_v4_unspecified(ip)
        && !spec_v4_loopback(ip)
}

/// An IPv6 address that may stand in a NAT profile.
pub open spec fn spec_v6_usable(ip: u128) -> bool {
    (ip >> 120u128) != 0xffu128 && ip != 0 && ip != 1
}

pub fn v4_unspecified(ip: u32) -> (r: bool)
    ensures
        r == spec_v4_unspecified(ip),
{
    ip == 0
}

pub fn v4_broadcast(ip: u32) -> (r: bool)
    ensures
        r == spec_v4_broadcast(ip),
{
    ip == 0xffff_ffffu32
}

pub fn v4_multicast(ip: u32) -> (r: bool)
    ensures
        r == spec_v4_multicast(ip),
{
    let a = ip >> 24u32;
    224 <= a && a < 240
}

pub fn v4_loopback(ip: u32) -> (r: bool)
    ensures
        r == spec_v4_loopback(ip),
{
    (ip >> 24u32) == 127
}

pub fn v4_private(ip: u32) -> (r: bool)
    ensures
        r == spec_v4_private(ip),
{
    let a = ip >> 24u32;
    let b = (ip >> 16u32) & 0xffu32;
    a == 10 || (a == 172 && 16 <= b && b < 32) || (a == 192 && b == 168)
}

pub fn v4_global(ip: u32) -> (r: bool)
    ensures
        r == spec_v4_global(ip),
{
    !v4_multicast(ip) && !v4_broadcast(ip) && !v4_unspecified(ip) && !v4_loopback(ip)
        && !v4_private(ip)
}

pub fn v4_usable_local(ip: u32) -> (r: bool)
    ensures
        r == spec_v4_usable_local(ip),
{
    !v4_multicast(ip) && !v4_broadcast(ip) && !v4_unspecified(ip) && !v4_loopback(ip)
}

pub fn v6_usable(ip: u128) -> (r: bool)
    ensures
        r == spec_v6_usable(ip),
{
    (ip >> 120u128) != 0xffu128 && ip != 0 && ip != 1
}

/// The four octets of an IPv4 address, most significant first.
pub fn v4_from_octets(a: u8, b: u8, c: u8, d: u8) -> (r: u32)
    ensures
        r == (a as u32) * 0x100_0000 + (b as u32) * 0x1_0000 + (c as u32) * 0x100 + (d as u32),
{
    (a as u32) * 0x100_0000 + (b as u32) * 0x1_0000 + (c as u32) * 0x100 + (d as u32)
}

/// A transport endpoint: an address and a port.
#[derive(Clone, Copy, Debug, PartialEq, Eq, Structural)]
pub enum SockAddr {
    V4 { ip: u32, port: u16 },
    V6 { ip6: u128, port: u16 },
}

impl SockAddr {
    pub open spec fn spec_port(self) -> u16 {
        match self {
            SockAddr::V4 { port, .. } => port,
            SockAddr::V6 { port, .. } => port,
        }
    }

    pub fn port(&self) -> (r: u16)
        ensures
            r == self.spec_port(),
    {
        match self {
            SockAddr::V4 { port, .. } => *port,
            SockAddr::V6 { port, .. } => *port,
        }
    }

    pub fn is_ipv4(&self) -> (r: bool)
        ensures
            r == (self is V4),
    {
        match self {
            SockAddr::V4 { .. } => true,
            SockAddr::V6 { .. } => false,
        }
    }
}

} // verus!
