//! Transport layer.

pub mod udp;
