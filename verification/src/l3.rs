//! Network layer.

pub mod ip;
pub mod ipv4;
