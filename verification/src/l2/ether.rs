//! The Ethernet header.

use crate::addr::hardware::{hw_text_error, hw_text_octets, is_hw_text, HardwareAddress};
use crate::addr::text::AddressFormatError;
use crate::wire::{be16, buf_freeze, buf_put_slice, buf_put_u16, buf_with_capacity, bytes_contents};
use bytes::Bytes;
use vstd::prelude::*;

verus! {

/// What an Ethernet frame carries.
#[derive(Debug, Clone, Copy)]
pub enum EtherType {
    IPv4,
    IPv6,
    ARP,
}

impl EtherType {
    /// The number assigned to the payload type.
    pub open spec fn spec_code(&self) -> u16 {
        match self {
            EtherType::IPv4 => 0x0800,
            EtherType::IPv6 => 0x86DD,
            EtherType::ARP => 0x0806,
        }
    }

    /// The number assigned to the payload type.
    #[verifier::when_used_as_spec(spec_code)]
    pub fn code(&self) -> (code: u16)
        ensures
            code == self.spec_code(),
    {
        match self {
            EtherType::IPv4 => 0x0800,
            EtherType::IPv6 => 0x86DD,
            EtherType::ARP => 0x0806,
        }
    }
}

/// The header of an Ethernet frame.
#[derive(Debug)]
pub struct EtherHdr {
    dest: HardwareAddress,
    src: HardwareAddress,
    ethertype: EtherType,
}

impl EtherHdr {
    /// The address the frame is sent to.
    pub closed spec fn dest(&self) -> HardwareAddress {
        self.dest
    }

    /// The address the frame is sent from.
    pub closed spec fn src(&self) -> HardwareAddress {
        self.src
    }

    /// What the frame carries.
    pub closed spec fn ethertype(&self) -> EtherType {
        self.ethertype
    }

    /// The header on the wire: destination, source, then the payload type,
    /// big-endian.
    pub open spec fn wire(&self) -> Seq<u8> {
        self.dest()@ + self.src()@ + be16(self.ethertype().code())
    }

    /// Builds a header from the texts of its two addresses. The destination
    /// is read first; the first text that is no hardware address is the one
    /// the error is about.
    pub fn from_str(dest: &str, src: &str, ethertype: EtherType) -> (hdr: Result<
        Self,
        AddressFormatError,
    >)
        ensures
            match hdr {
                Ok(h) => {
                    &&& is_hw_text(dest@)
                    &&& is_hw_text(src@)
                    &&& h.dest()@ == hw_text_octets(dest@)
                    &&& h.src()@ == hw_text_octets(src@)
                    &&& h.ethertype() == ethertype
                },
                Err(e) => if !is_hw_text(dest@) {
                    e == hw_text_error(dest@)
                } else {
                    !is_hw_text(src@) && e == hw_text_error(src@)
                },
            },
    {
        let dest = match HardwareAddress::parse(dest) {
            Ok(addr) => addr,
            Err(e) => {
                return Err(e);
            },
        };
        let src = match HardwareAddress::parse(src) {
            Ok(addr) => addr,
            Err(e) => {
                return Err(e);
            },
        };
        Ok(EtherHdr { dest: dest, src: src, ethertype: ethertype })
    }

    /// The fourteen bytes of the header as they go on the wire.
    pub fn to_bytes(&self) -> (out: Bytes)
        ensures
            bytes_contents(out) == self.wire(),
            bytes_contents(out).len() == 14,
    {
        let mut bytes = buf_with_capacity(6 + 6 + 2);
        let dest = self.dest.to_bytes();
        let src = self.src.to_bytes();
        buf_put_slice(&mut bytes, dest.as_slice());
        buf_put_slice(&mut bytes, src.as_slice());
        buf_put_u16(&mut bytes, self.ethertype.code());
        buf_freeze(bytes)
    }
}

} // verus!
