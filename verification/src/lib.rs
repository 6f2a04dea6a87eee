//! Raw network frames, built byte for byte from independent protocol layers.
//!
//! Each layer header serializes to a fixed-layout sequence of bytes in network
//! byte order. The contract of every serializer is stated over the sequence of
//! bytes that ends up in the returned buffer.

pub mod addr;
pub mod checksum;
pub mod frame;
pub mod socket;
pub mod wire;
pub mod l2;
pub mod l3;
pub mod l4;
