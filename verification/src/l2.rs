//! Link layer and address resolution.

pub mod arp;
pub mod ether;
