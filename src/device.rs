//! This node's identity on the overlay and its connection status.
use vstd::prelude::*;
use crate::addr::SockAddr;

verus! {

#[derive(Clone, Copy, Debug, PartialEq, Eq, Structural)]
pub enum ConnectStatus {
    Connecting,
    Connected,
    Offline,
}

impl ConnectStatus {
    pub fn online(&self) -> (r: bool)
        ensures
            r == (*self == ConnectStatus::Connected),
    {
        match self {
            ConnectStatus::Connected => true,
            _ => false,
        }
    }

    pub fn offline(&self) -> (r: bool)
        ensures
            r == (*self != ConnectStatus::Connected),
    {
        !self.online()
    }
}

/// A consistent snapshot of this node's overlay identity.
#[derive(Clone, Copy, Debug, PartialEq, Eq, Structural)]
pub struct CurrentDeviceInfo {
    pub virtual_ip: u32,
    pub virtual_netmask: u32,
    pub virtual_gateway: u32,
    pub broadcast_ip: u32,
    pub connect_server: SockAddr,
    pub status: ConnectStatus,
}

impl CurrentDeviceInfo {
    /// Whether `ip` is the overlay gateway.
    pub fn is_gateway(&self, ip: u32) -> (r: bool)
        ensures
            r == (ip == self.virtual_gateway),
    {
        ip == self.virtual_gateway
    }
}

} // verus!
