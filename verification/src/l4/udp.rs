//! The UDP header.

use crate::wire::{be16, buf_freeze, buf_put_u16, buf_with_capacity, bytes_contents};
use bytes::Bytes;
use vstd::prelude::*;

verus! {

/// A UDP header without payload: the length covers the header alone and the
/// checksum is switched off.
#[derive(Debug)]
pub struct Udp {
    src: u16,
    dest: u16,
    length: u16,
    checksum: u16,
}

impl Udp {
    /// The source port.
    pub closed spec fn src(&self) -> u16 {
        self.src
    }

    /// The destination port.
    pub closed spec fn dest(&self) -> u16 {
        self.dest
    }

    /// The length field, in bytes.
    pub closed spec fn length(&self) -> u16 {
        self.length
    }

    /// The checksum field; zero means that no checksum is carried.
    pub closed spec fn checksum(&self) -> u16 {
        self.checksum
    }

    /// The header on the wire: source port, destination port, length and
    /// checksum, each big-endian.
    pub open spec fn wire(&self) -> Seq<u8> {
        be16(self.src()) + be16(self.dest()) + be16(self.length()) + be16(self.checksum())
    }

    /// A header for a datagram without payload between the two ports.
    pub fn new(src: u16, dest: u16) -> (udp: Self)
        ensures
            udp.src() == src,
            udp.dest() == dest,
            udp.length() == 8,
            udp.checksum() == 0,
    {
        Self { src: src, dest: dest, length: 8, checksum: 0 }
    }

    /// The eight bytes of the header as they go on the wire.
    pub fn to_bytes(&self) -> (out: Bytes)
        ensures
            bytes_contents(out) == self.wire(),
            bytes_contents(out).len() == 8,
    {
        let mut bytes = buf_with_capacity(2 * 4);
        buf_put_u16(&mut bytes, self.src);
        buf_put_u16(&mut bytes, self.dest);
        buf_put_u16(&mut bytes, self.length);
        buf_put_u16(&mut bytes, self.checksum);
        buf_freeze(bytes)
    }
}

} // verus!
