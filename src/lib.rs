//! A small user-space IPv4 layer: a packet buffer with a movable data window,
//! the byte-order and checksum helpers, and the IPv4 header codec and dispatch.

pub mod buf;
pub mod util;
pub mod ipv4;
pub mod netif;
