//! The network service.

pub mod clock;
pub mod com;
pub mod dns;
pub mod icmp;
pub mod network_order;
pub mod ping;
pub mod sockets;
pub mod udp;
pub mod udp_ports;
pub mod wait;
