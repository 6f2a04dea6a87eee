//! Address resolution: the header and the body of a request or a reply.

use crate::addr::hardware::{hw_text_error, hw_text_octets, is_hw_text, HardwareAddress};
use crate::addr::protocol::{ip_text_error, ip_text_octets, is_ip_text, ProtocolAddress};
use crate::addr::text::AddressFormatError;
use crate::wire::{
    be16, buf_freeze, buf_put_slice, buf_put_u16, buf_put_u8, buf_with_capacity, bytes_contents,
};
use bytes::Bytes;
use vstd::prelude::*;

verus! {

/// The kind of link whose addresses are resolved.
#[derive(Debug, Clone, Copy)]
pub enum Htype {
    ETHER,
}

impl Htype {
    /// The number assigned to the hardware type.
    pub open spec fn spec_code(&self) -> u16 {
        match self {
            Htype::ETHER => 1,
        }
    }

    /// The number assigned to the hardware type.
    #[verifier::when_used_as_spec(spec_code)]
    pub fn code(&self) -> (code: u16)
        ensures
            code == self.spec_code(),
    {
        match self {
            Htype::ETHER => 1,
        }
    }

    /// The length in octets of an address of this hardware type.
    pub open spec fn spec_hlen(&self) -> u8 {
        match self {
            Htype::ETHER => 6,
        }
    }

    /// The length in octets of an address of this hardware type.
    #[verifier::when_used_as_spec(spec_hlen)]
    pub fn hlen(&self) -> (len: u8)
        ensures
            len == self.spec_hlen(),
    {
        match self {
            Htype::ETHER => 6,
        }
    }
}

/// The protocol whose addresses are resolved.
#[derive(Debug, Clone, Copy)]
pub enum Ptype {
    IPv4,
}

impl Ptype {
    /// The number assigned to the protocol type.
    pub open spec fn spec_code(&self) -> u16 {
        match self {
            Ptype::IPv4 => 0x0800,
        }
    }

    /// The number assigned to the protocol type.
    #[verifier::when_used_as_spec(spec_code)]
    pub fn code(&self) -> (code: u16)
        ensures
            code == self.spec_code(),
    {
        match self {
            Ptype::IPv4 => 0x0800,
        }
    }

    /// The length in octets of an address of this protocol type.
    pub open spec fn spec_plen(&self) -> u8 {
        match self {
            Ptype::IPv4 => 4,
        }
    }

    /// The length in octets of an address of this protocol type.
    #[verifier::when_used_as_spec(spec_plen)]
    pub fn plen(&self) -> (len: u8)
        ensures
            len == self.spec_plen(),
    {
        match self {
            Ptype::IPv4 => 4,
        }
    }
}

/// What an address resolution packet asks for.
#[derive(Debug, Clone, Copy)]
pub enum ArpOp {
    REQUEST,
    REPLY,
}

impl ArpOp {
    /// The number assigned to the operation.
    pub open spec fn spec_code(&self) -> u16 {
        match self {
            ArpOp::REQUEST => 1,
            ArpOp::REPLY => 2,
        }
    }

    /// The number assigned to the operation.
    #[verifier::when_used_as_spec(spec_code)]
    pub fn code(&self) -> (code: u16)
        ensures
            code == self.spec_code(),
    {
        match self {
            ArpOp::REQUEST => 1,
            ArpOp::REPLY => 2,
        }
    }
}

/// The fixed part of an address resolution packet. The two address lengths
/// always are those of the hardware and protocol types.
#[derive(Debug)]
pub struct ArpHdr {
    htype: Htype,
    ptype: Ptype,
    hlen: u8,
    plen: u8,
    oper: ArpOp,
}

impl ArpHdr {
    #[verifier::type_invariant]
    spec fn lengths_follow_types(&self) -> bool {
        self.hlen == self.htype.hlen() && self.plen == self.ptype.plen()
    }

    /// The hardware type.
    pub closed spec fn htype(&self) -> Htype {
        self.htype
    }

    /// The protocol type.
    pub closed spec fn ptype(&self) -> Ptype {
        self.ptype
    }

    /// The operation.
    pub closed spec fn oper(&self) -> ArpOp {
        self.oper
    }

    /// The header on the wire: hardware type, protocol type, the length of a
    /// hardware address, the length of a protocol address, and the
    /// operation; the wider fields big-endian.
    pub open spec fn wire(&self) -> Seq<u8> {
        be16(self.htype().code()) + be16(self.ptype().code()) + seq![
            self.htype().hlen(),
            self.ptype().plen(),
        ] + be16(self.oper().code())
    }

    /// A header for the given types and operation. The address lengths are those
    /// of the types.
    pub fn new(htype: Htype, ptype: Ptype, op: ArpOp) -> (hdr: Self)
        ensures
            hdr.htype() == htype,
            hdr.ptype() == ptype,
            hdr.oper() == op,
    {
        ArpHdr { htype: htype, ptype: ptype, hlen: htype.hlen(), plen: ptype.plen(), oper: op }
    }

    /// The header of a request.
    pub fn new_request(htype: Htype, ptype: Ptype) -> (hdr: Self)
        ensures
            hdr.htype() == htype,
            hdr.ptype() == ptype,
            hdr.oper() == ArpOp::REQUEST,
    {
        ArpHdr::new(htype, ptype, ArpOp::REQUEST)
    }

    /// The header of a reply.
    pub fn new_response(htype: Htype, ptype: Ptype) -> (hdr: Self)
        ensures
            hdr.htype() == htype,
            hdr.ptype() == ptype,
            hdr.oper() == ArpOp::REPLY,
    {
        ArpHdr::new(htype, ptype, ArpOp::REPLY)
    }

    /// The eight bytes of the header as they go on the wire.
    pub fn to_bytes(&self) -> (out: Bytes)
        ensures
            bytes_contents(out) == self.wire(),
            bytes_contents(out).len() == 8,
    {
        proof {
            use_type_invariant(self);
        }
        let mut bytes = buf_with_capacity(2 + 2 + 1 + 1 + 2);
        buf_put_u16(&mut bytes, self.htype.code());
        buf_put_u16(&mut bytes, self.ptype.code());
        buf_put_u8(&mut bytes, self.hlen);
        buf_put_u8(&mut bytes, self.plen);
        buf_put_u16(&mut bytes, self.oper.code());
        buf_freeze(bytes)
    }
}

/// The body of an address resolution packet: who asks, and for whom.
#[derive(Debug)]
pub struct ArpPayload {
    sha: HardwareAddress,
    spa: ProtocolAddress,
    tha: HardwareAddress,
    tpa: ProtocolAddress,
}

impl ArpPayload {
    /// The sender's hardware address.
    pub closed spec fn sha(&self) -> HardwareAddress {
        self.sha
    }

    /// The sender's protocol address.
    pub closed spec fn spa(&self) -> ProtocolAddress {
        self.spa
    }

    /// The target's hardware address.
    pub closed spec fn tha(&self) -> HardwareAddress {
        self.tha
    }

    /// The target's protocol address.
    pub closed spec fn tpa(&self) -> ProtocolAddress {
        self.tpa
    }

    /// The body on the wire: the four addresses, octet for octet.
    pub open spec fn wire(&self) -> Seq<u8> {
        self.sha()@ + self.spa()@ + self.tha()@ + self.tpa()@
    }

    /// A body with the given addresses.
    pub fn new(
        sha: HardwareAddress,
        spa: ProtocolAddress,
        tha: HardwareAddress,
        tpa: ProtocolAddress,
    ) -> (payload: Self)
        ensures
            payload.sha() == sha,
            payload.spa() == spa,
            payload.tha() == tha,
            payload.tpa() == tpa,
    {
        ArpPayload { sha: sha, spa: spa, tha: tha, tpa: tpa }
    }

    /// Builds a body from the texts of its four addresses. They are read in
    /// the order of the parameters; the first text that is no address is the
    /// one the error is about.
    pub fn from_str(sha: &str, spa: &str, tha: &str, tpa: &str) -> (payload: Result<
        Self,
        AddressFormatError,
    >)
        ensures
            match payload {
                Ok(p) => {
                    &&& is_hw_text(sha@)
                    &&& is_ip_text(spa@)
                    &&& is_hw_text(tha@)
                    &&& is_ip_text(tpa@)
                    &&& p.sha()@ == hw_text_octets(sha@)
                    &&& p.spa()@ == ip_text_octets(spa@)
                    &&& p.tha()@ == hw_text_octets(tha@)
                    &&& p.tpa()@ == ip_text_octets(tpa@)
                },
                Err(e) => if !is_hw_text(sha@) {
                    e == hw_text_error(sha@)
                } else if !is_ip_text(spa@) {
                    e == ip_text_error(spa@)
                } else if !is_hw_text(tha@) {
                    e == hw_text_error(tha@)
                } else {
                    !is_ip_text(tpa@) && e == ip_text_error(tpa@)
                },
            },
    {
        let sha = match HardwareAddress::parse(sha) {
            Ok(addr) => addr,
            Err(e) => {
                return Err(e);
            },
        };
        let spa = match ProtocolAddress::parse(spa) {
            Ok(addr) => addr,
            Err(e) => {
                return Err(e);
            },
        };
        let tha = match HardwareAddress::parse(tha) {
            Ok(addr) => addr,
            Err(e) => {
                return Err(e);
            },
        };
        let tpa = match ProtocolAddress::parse(tpa) {
            Ok(addr) => addr,
            Err(e) => {
                return Err(e);
            },
        };
        Ok(ArpPayload::new(sha, spa, tha, tpa))
    }

    /// The twenty bytes of the body as they go on the wire.
    pub fn to_bytes(&self) -> (out: Bytes)
        ensures
            bytes_contents(out) == self.wire(),
            bytes_contents(out).len() == 20,
    {
        let mut bytes = buf_with_capacity(6 + 4 + 6 + 4);
        let sha = self.sha.to_bytes();
        let spa = self.spa.to_bytes();
        let tha = self.tha.to_bytes();
        let tpa = self.tpa.to_bytes();
        buf_put_slice(&mut bytes, sha.as_slice());
        buf_put_slice(&mut bytes, spa.as_slice());
        buf_put_slice(&mut bytes, tha.as_slice());
        buf_put_slice(&mut bytes, tpa.as_slice());
        buf_freeze(bytes)
    }
}

} // verus!
