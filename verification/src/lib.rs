//! Core of a user-space VPN server: credential checks and session tokens,
//! IPv4 address leasing, packet routing between a TUN device and client
//! connections, and the supervision of tunnels.
//!
//! Everything here is sequential logic over plain values with machine-checked
//! contracts. Sockets, devices, tasks and timers live with the caller, which
//! feeds events in and carries the returned actions out.

pub mod auth;
pub mod server;
pub mod tun;
