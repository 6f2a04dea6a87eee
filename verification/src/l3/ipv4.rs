//! The IPv4 header, without options.

use super::ip::{IpProtocol, IpVersion};
use crate::addr::protocol::ProtocolAddress;
use crate::checksum::{
    complement, fold_carries, folded_word_sum, lemma_complement_folds_to_ones, with_word, word_sum,
};
use crate::wire::{
    be16, buf_freeze, buf_put_slice, buf_put_u16, buf_put_u8, buf_with_capacity, bytes_clone,
    bytes_contents, bytes_get_u16, bytes_remaining,
};
use bytes::Bytes;
use vstd::prelude::*;

verus! {

/// Where the checksum stands in the header, in bytes from its start.
pub const CHECKSUM_OFFSET: usize = 10;

/// The header with its checksum field set to zero. A region too short to
/// hold the field is left as it is.
pub open spec fn checksum_cleared(header: Seq<u8>) -> Seq<u8> {
    if header.len() >= CHECKSUM_OFFSET + 2 {
        with_word(header, CHECKSUM_OFFSET as int, 0, 0)
    } else {
        header
    }
}

/// The header with `check` in its checksum field, big-endian.
pub open spec fn checksum_set(header: Seq<u8>, check: nat) -> Seq<u8>
    recommends
        header.len() >= CHECKSUM_OFFSET + 2,
        check <= 0xFFFF,
{
    with_word(header, CHECKSUM_OFFSET as int, (check / 256) as u8, (check % 256) as u8)
}

/// The folded sum of the words of a header. To verify a header, its
/// checksum field is summed with the rest; to compute the checksum of a
/// header, the field counts as zero.
pub open spec fn header_checksum(header: Seq<u8>, verify: bool) -> nat {
    if verify {
        folded_word_sum(header)
    } else {
        folded_word_sum(checksum_cleared(header))
    }
}

/// An IPv4 header. The version is 4 and the header is five words long, since
/// it has no options.
#[derive(Debug)]
pub struct IPv4 {
    version: IpVersion,
    ihl: u8,
    dscp: u8,
    ecn: u8,
    total_length: u16,
    id: u16,
    flags: u8,
    fragment_offset: u16,
    ttl: u8,
    protocol: IpProtocol,
    checksum: u16,
    src: ProtocolAddress,
    dest: ProtocolAddress,
}

impl IPv4 {
    #[verifier::type_invariant]
    spec fn fields_fit(&self) -> bool {
        &&& self.version is v4
        &&& self.ihl == 5
        &&& self.dscp < 64
        &&& self.ecn < 4
        &&& self.flags < 8
        &&& self.fragment_offset < 0x2000
    }

    /// The protocol version.
    pub closed spec fn version(&self) -> IpVersion {
        self.version
    }

    /// The length of the header, in words of four bytes.
    pub closed spec fn ihl(&self) -> u8 {
        self.ihl
    }

    /// The differentiated services code point, six bits wide.
    pub closed spec fn dscp(&self) -> u8 {
        self.dscp
    }

    /// The congestion notification bits, two bits wide.
    pub closed spec fn ecn(&self) -> u8 {
        self.ecn
    }

    /// The length of the packet in bytes, as the header declares it.
    pub closed spec fn total_length(&self) -> u16 {
        self.total_length
    }

    /// The identification of the packet.
    pub closed spec fn id(&self) -> u16 {
        self.id
    }

    /// The fragmentation flags, three bits wide.
    pub closed spec fn flags(&self) -> u8 {
        self.flags
    }

    /// The fragment offset, thirteen bits wide.
    pub closed spec fn fragment_offset(&self) -> u16 {
        self.fragment_offset
    }

    /// The time to live.
    pub closed spec fn ttl(&self) -> u8 {
        self.ttl
    }

    /// The protocol that the packet carries.
    pub closed spec fn protocol(&self) -> IpProtocol {
        self.protocol
    }

    /// The checksum field.
    pub closed spec fn checksum_field(&self) -> u16 {
        self.checksum
    }

    /// The address the packet is sent from.
    pub closed spec fn src(&self) -> ProtocolAddress {
        self.src
    }

    /// The address the packet is sent to.
    pub closed spec fn dest(&self) -> ProtocolAddress {
        self.dest
    }

    /// The header on the wire. Version and header length share the first
    /// byte, code point and congestion bits the second, flags and fragment
    /// offset the fourth word; fields wider than a byte are big-endian.
    pub open spec fn wire(&self) -> Seq<u8> {
        seq![
            (self.version().code() * 16 + self.ihl()) as u8,
            (self.dscp() * 4 + self.ecn()) as u8,
        ] + be16(self.total_length()) + be16(self.id()) + be16(
            (self.flags() * 0x2000 + self.fragment_offset()) as u16,
        ) + seq![self.ttl(), self.protocol().code()] + be16(self.checksum_field()) + self.src()@
            + self.dest()@
    }

    /// A header for a packet without payload: the total length is that of
    /// the header, and the checksum field is left at zero.
    pub fn new(src: ProtocolAddress, dest: ProtocolAddress, protocol: IpProtocol) -> (hdr: Self)
        ensures
            hdr.version() == IpVersion::v4,
            hdr.ihl() == 5,
            hdr.dscp() == 0,
            hdr.ecn() == 0,
            hdr.total_length() == 20,
            hdr.id() == 1,
            hdr.flags() == 0,
            hdr.fragment_offset() == 0,
            hdr.ttl() == 64,
            hdr.protocol() == protocol,
            hdr.checksum_field() == 0,
            hdr.src() == src,
            hdr.dest() == dest,
    {
        Self {
            version: IpVersion::v4,
            ihl: 5,
            dscp: 0,
            ecn: 0,
            total_length: 20,
            id: 1,
            flags: 0,
            fragment_offset: 0,
            ttl: 64,
            protocol: protocol,
            checksum: 0,
            src: src,
            dest: dest,
        }
    }

    /// The folded one's-complement sum of a header of even length. With
    /// `verify` the checksum field is part of the sum, and the header is
    /// intact when the result is `0xFFFF`. Without it the field counts as
    /// zero, and the checksum to store is the complement of the result.
    pub fn checksum(bytes: &Bytes, verify: bool) -> (sum: u16)
        requires
            bytes_contents(*bytes).len() % 2 == 0,
        ensures
            sum == header_checksum(bytes_contents(*bytes), verify),
    {
        let ghost header = bytes_contents(*bytes);
        let ghost summed = if verify {
            header
        } else {
            checksum_cleared(header)
        };
        let mut rest = bytes_clone(bytes);
        let len: usize = bytes_remaining(&rest);
        let mut sum: u128 = 0;
        let mut offset: usize = 0;
        while bytes_remaining(&rest) >= 2
            invariant
                header == bytes_contents(*bytes),
                summed == if verify {
                    header
                } else {
                    checksum_cleared(header)
                },
                header.len() == len,
                len % 2 == 0,
                offset % 2 == 0,
                offset <= header.len(),
                bytes_contents(rest) == header.skip(offset as int),
                sum == word_sum(summed.subrange(0, offset as int)),
                sum <= 0xFFFF * offset,
            decreases header.len() - offset,
        {
            let word = bytes_get_u16(&mut rest);
            proof {
                let grown = summed.subrange(0, offset + 2);
                assert(grown.subrange(0, grown.len() - 2) =~= summed.subrange(0, offset as int));
            }
            if verify || offset != CHECKSUM_OFFSET {
                sum = sum + word as u128;
            }
            offset = offset + 2;
        }
        proof {
            assert(summed.subrange(0, offset as int) =~= summed);
        }
        while sum > 0xFFFF
            invariant
                fold_carries(sum as nat) == fold_carries(word_sum(summed)),
            decreases sum,
        {
            assert(sum >> 16 == sum / 0x1_0000 && sum & 0xFFFF == sum % 0x1_0000) by (bit_vector);
            sum = (sum >> 16) + (sum & 0xFFFF);
        }
        sum as u16
    }

    /// The folded one's-complement sum of a header, if the header has an
    /// even number of bytes; a region of odd length is no row of words.
    pub fn try_checksum(bytes: &Bytes, verify: bool) -> (sum: Option<u16>)
        ensures
            match sum {
                Some(s) => bytes_contents(*bytes).len() % 2 == 0 && s == header_checksum(
                    bytes_contents(*bytes),
                    verify,
                ),
                None => bytes_contents(*bytes).len() % 2 != 0,
            },
    {
        if bytes_remaining(bytes) % 2 == 0 {
            Some(Self::checksum(bytes, verify))
        } else {
            None
        }
    }

    /// The twenty bytes of the header as they go on the wire.
    pub fn to_bytes(&self) -> (out: Bytes)
        ensures
            bytes_contents(out) == self.wire(),
            bytes_contents(out).len() == 20,
    {
        proof {
            use_type_invariant(self);
        }
        let mut bytes = buf_with_capacity(2 * 4);

        let version_ihl: u8 = self.version.code() * 16 + self.ihl;
        let dscp_ecn: u8 = self.dscp * 4 + self.ecn;
        let flags_fragment_offset: u16 = (self.flags as u16) * 0x2000 + self.fragment_offset;

        buf_put_u8(&mut bytes, version_ihl);
        buf_put_u8(&mut bytes, dscp_ecn);
        buf_put_u16(&mut bytes, self.total_length);
        buf_put_u16(&mut bytes, self.id);
        buf_put_u16(&mut bytes, flags_fragment_offset);
        buf_put_u8(&mut bytes, self.ttl);
        buf_put_u8(&mut bytes, self.protocol.code());
        buf_put_u16(&mut bytes, self.checksum);
        let src = self.src.to_bytes();
        let dest = self.dest.to_bytes();
        buf_put_slice(&mut bytes, src.as_slice());
        buf_put_slice(&mut bytes, dest.as_slice());

        buf_freeze(bytes)
    }
}

/// A header that carries the complement of its computed checksum verifies:
/// its folded sum, checksum field included, is `0xFFFF`.
pub proof fn lemma_stored_checksum_verifies(header: Seq<u8>)
    requires
        header.len() % 2 == 0,
        header.len() >= CHECKSUM_OFFSET + 2,
    ensures
        header_checksum(checksum_set(header, complement(header_checksum(header, false))), true)
            == 0xFFFF,
{
    lemma_complement_folds_to_ones(header, CHECKSUM_OFFSET as int);
}

} // verus!
