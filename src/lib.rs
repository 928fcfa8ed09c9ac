//! Peer data plane of an overlay VPN: packet header codec, NAT profiles,
//! the route table, the hole-punching planner, the handshake clock, the
//! client packet handler and the bookkeeping of the transparent TCP proxy.
pub mod addr;
pub mod checksum;
pub mod cli;
pub mod command;
pub mod device;
pub mod handler;
pub mod handshake;
pub mod ip_packet;
pub mod maintain;
pub mod nat_info;
pub mod packet;
pub mod proto;
pub mod proxy;
pub mod punch;
pub mod route;
pub mod stun;
mod rng;
