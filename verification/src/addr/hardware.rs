//! Link-layer addresses.
//!
//! A hardware address is six octets. Its text is six octets of two
//! hexadecimal digits each, with a colon or a hyphen between each two.

use crate::addr::text::{
    ascii_text, lemma_segments_cover, lemma_segments_hold_no_separator, lemma_segments_of_pairs,
    segments, split, AddressFormatError,
};
use mac_address::{MacAddress, MacParseError};
use std::str::FromStr;
use vstd::prelude::*;
use vstd::string::{is_ascii_spec_bytes, StringExecFns};

verus! {

/// `mac_address::MacParseError`, the reason for which the parser of the
/// `mac_address` crate refuses a text. Nothing inside it is visible to the
/// verifier.
#[verifier::external_type_specification]
#[verifier::external_body]
pub struct ExMacParseError(mac_address::MacParseError);

/// A hexadecimal digit, in either case.
pub open spec fn is_hex_digit(c: char) -> bool {
    ('0' <= c && c <= '9') || ('a' <= c && c <= 'f') || ('A' <= c && c <= 'F')
}

/// What a hexadecimal digit stands for.
pub open spec fn hex_digit_value(c: char) -> nat
    recommends
        is_hex_digit(c),
{
    if '0' <= c && c <= '9' {
        (c as nat - '0' as nat) as nat
    } else if 'a' <= c && c <= 'f' {
        (c as nat - 'a' as nat + 10) as nat
    } else {
        (c as nat - 'A' as nat + 10) as nat
    }
}

/// An octet written with two hexadecimal digits.
pub open spec fn is_hex_pair(piece: Seq<char>) -> bool {
    piece.len() == 2 && is_hex_digit(piece[0]) && is_hex_digit(piece[1])
}

/// The octet that two hexadecimal digits spell.
pub open spec fn hex_pair_value(piece: Seq<char>) -> nat
    recommends
        is_hex_pair(piece),
{
    16 * hex_digit_value(piece[0]) + hex_digit_value(piece[1])
}

/// The pieces of a hardware address text: it is cut at colons and hyphens.
pub open spec fn hw_segments(text: Seq<char>) -> Seq<Seq<char>> {
    segments(text, ':', '-')
}

/// The text of a hardware address: six octets of two hexadecimal digits.
pub open spec fn is_hw_text(text: Seq<char>) -> bool {
    &&& hw_segments(text).len() == 6
    &&& forall|k: int| 0 <= k < 6 ==> is_hex_pair(#[trigger] hw_segments(text)[k])
}

/// The six octets that a hardware address text spells.
pub open spec fn hw_text_octets(text: Seq<char>) -> Seq<u8>
    recommends
        is_hw_text(text),
{
    Seq::new(6, |k: int| hex_pair_value(hw_segments(text)[k]) as u8)
}

/// A character that may stand in a hardware address text.
pub open spec fn is_hw_char(c: char) -> bool {
    is_hex_digit(c) || c == ':' || c == '-'
}

/// What is wrong with a text that is no hardware address. A foreign
/// character is reported first, then a wrong number of octets, then an
/// octet that is not two digits long.
pub open spec fn hw_text_error(text: Seq<char>) -> AddressFormatError
    recommends
        !is_hw_text(text),
{
    if exists|i: int| 0 <= i < text.len() && !is_hw_char(#[trigger] text[i]) {
        AddressFormatError::InvalidDigit
    } else if hw_segments(text).len() != 6 {
        AddressFormatError::SegmentCount
    } else {
        AddressFormatError::OctetRange
    }
}

/// The upper-case hexadecimal digit that stands for `n`.
pub open spec fn hex_char(n: nat) -> char
    recommends
        n < 16,
{
    seq!['0', '1', '2', '3', '4', '5', '6', '7', '8', '9', 'A', 'B', 'C', 'D', 'E', 'F'][n as int]
}

/// The canonical text of six octets: each as two upper-case hexadecimal
/// digits, with a colon between each two octets.
pub open spec fn hw_canonical_text(octets: Seq<u8>) -> Seq<char>
    recommends
        octets.len() == 6,
{
    Seq::new(
        17,
        |i: int|
            if i % 3 == 2 {
                ':'
            } else if i % 3 == 0 {
                hex_char(octets[i / 3] as nat / 16)
            } else {
                hex_char(octets[i / 3] as nat % 16)
            },
    )
}

/// `MacAddress::from_str`, then `MacAddress::bytes`. The parser of the
/// `mac_address` crate cuts a text of 17 characters at colons and hyphens and
/// reads each piece as a hexadecimal number; on a text of six two-digit
/// pieces it succeeds, and each octet is the number that its piece spells.
/// Nothing is claimed of any other text.
#[verifier::external_body]
fn mac_octets_from_text(text: &str) -> (parsed: Result<[u8; 6], MacParseError>)
    ensures
        is_hw_text(text@) ==> parsed is Ok && parsed->Ok_0@ == hw_text_octets(text@),
{
    MacAddress::from_str(text).map(|mac| mac.bytes())
}

/// A six-octet link-layer address.
#[derive(Debug, Clone, Copy)]
pub struct HardwareAddress {
    octets: [u8; 6],
}

impl View for HardwareAddress {
    type V = Seq<u8>;

    open spec fn view(&self) -> Seq<u8> {
        self.octets()@
    }
}

/// Tells whether an ASCII byte is a hexadecimal digit.
fn is_hex_byte(b: u8) -> (hex: bool)
    requires
        b < 128,
    ensures
        hex == is_hex_digit(b as char),
{
    (0x30 <= b && b <= 0x39) || (0x61 <= b && b <= 0x66) || (0x41 <= b && b <= 0x46)
}

/// The upper-case hexadecimal digit for a number below sixteen.
fn hex_str(n: u8) -> (digit: &'static str)
    requires
        n < 16,
    ensures
        digit@ == seq![hex_char(n as nat)],
{
    proof {
        reveal_strlit("0");
        reveal_strlit("1");
        reveal_strlit("2");
        reveal_strlit("3");
        reveal_strlit("4");
        reveal_strlit("5");
        reveal_strlit("6");
        reveal_strlit("7");
        reveal_strlit("8");
        reveal_strlit("9");
        reveal_strlit("A");
        reveal_strlit("B");
        reveal_strlit("C");
        reveal_strlit("D");
        reveal_strlit("E");
        reveal_strlit("F");
    }
    match n {
        0 => "0",
        1 => "1",
        2 => "2",
        3 => "3",
        4 => "4",
        5 => "5",
        6 => "6",
        7 => "7",
        8 => "8",
        9 => "9",
        10 => "A",
        11 => "B",
        12 => "C",
        13 => "D",
        14 => "E",
        _ => "F",
    }
}

impl HardwareAddress {
    /// The octets, in transmission order.
    pub closed spec fn octets(&self) -> [u8; 6] {
        self.octets
    }

    /// The address with the given octets.
    pub fn new(octets: [u8; 6]) -> (addr: Self)
        ensures
            addr.octets() == octets,
    {
        HardwareAddress { octets }
    }

    /// The raw octets of the address.
    pub fn to_bytes(&self) -> (octets: [u8; 6])
        ensures
            octets == self.octets(),
    {
        self.octets
    }

    /// The canonical text of the address, such as `AA:BB:CC:DD:EE:FF`.
    pub fn to_text(&self) -> (text: String)
        ensures
            text@ == hw_canonical_text(self@),
    {
        let ghost canon = hw_canonical_text(self@);
        let mut text = String::new();
        let mut k: usize = 0;
        while k < 6
            invariant
                k <= 6,
                canon == hw_canonical_text(self@),
                text@ == canon.subrange(
                    0,
                    if k == 0 {
                        0
                    } else {
                        3 * k - 1
                    },
                ),
            decreases 6 - k,
        {
            if k > 0 {
                proof {
                    reveal_strlit(":");
                }
                text.append(":");
            }
            let octet = self.octets[k];
            text.append(hex_str(octet / 16));
            text.append(hex_str(octet % 16));
            k = k + 1;
        }
        text
    }

    /// Reads an address from its text. A text that is no address is
    /// rejected, and nothing is built from a part of it.
    pub fn parse(text: &str) -> (parsed: Result<HardwareAddress, AddressFormatError>)
        ensures
            match parsed {
                Ok(addr) => is_hw_text(text@) && addr@ == hw_text_octets(text@),
                Err(e) => !is_hw_text(text@) && e == hw_text_error(text@),
            },
    {
        if !text.is_ascii() {
            proof {
                let i = choose|i: int| 0 <= i < text@.len() && !('\0' <= #[trigger] text@[i] <= '\u{7f}');
                lemma_foreign_char_spoils(text@, i);
            }
            return Err(AddressFormatError::InvalidDigit);
        }
        let bytes = text.as_bytes();
        proof {
            is_ascii_spec_bytes(text);
        }
        let mut i: usize = 0;
        while i < bytes.len()
            invariant
                i <= bytes@.len(),
                text@ == ascii_text(bytes@),
                forall|j: int| 0 <= j < bytes@.len() ==> #[trigger] bytes@[j] < 128,
                forall|j: int| 0 <= j < i ==> is_hw_char(#[trigger] text@[j]),
            decreases bytes@.len() - i,
        {
            let b = bytes[i];
            if !(is_hex_byte(b) || b == 0x3a || b == 0x2d) {
                proof {
                    assert(!is_hw_char(text@[i as int]));
                    lemma_foreign_char_spoils(text@, i as int);
                }
                return Err(AddressFormatError::InvalidDigit);
            }
            i = i + 1;
        }
        let spans = split(bytes, 0x3a, 0x2d);
        if spans.len() != 6 {
            return Err(AddressFormatError::SegmentCount);
        }
        let mut k: usize = 0;
        while k < 6
            invariant
                k <= 6,
                spans@.len() == 6,
                hw_segments(text@).len() == 6,
                forall|j: int| 0 <= j < text@.len() ==> is_hw_char(#[trigger] text@[j]),
                forall|n: int|
                    0 <= n < 6 ==> (#[trigger] spans@[n]).within(text@.len()) && spans@[n].of(
                        text@,
                    ) == hw_segments(text@)[n],
                forall|n: int| 0 <= n < k ==> is_hex_pair(#[trigger] hw_segments(text@)[n]),
            decreases 6 - k,
        {
            let span = spans[k];
            if span.end - span.start != 2 {
                return Err(AddressFormatError::OctetRange);
            }
            proof {
                lemma_segments_hold_no_separator(text@, ':', '-', k as int, 0);
                lemma_segments_hold_no_separator(text@, ':', '-', k as int, 1);
            }
            k = k + 1;
        }
        // The text is six pairs of hexadecimal digits, so the outside parser
        // does not refuse it.
        match mac_octets_from_text(text) {
            Ok(octets) => Ok(HardwareAddress { octets }),
            Err(_) => Err(AddressFormatError::InvalidDigit),
        }
    }
}

/// A text that holds a character which is neither a hexadecimal digit nor a
/// separator is no hardware address.
pub proof fn lemma_foreign_char_spoils(text: Seq<char>, i: int)
    requires
        0 <= i < text.len(),
        !is_hw_char(text[i]),
    ensures
        !is_hw_text(text),
{
    lemma_segments_cover(text, ':', '-', i);
}

/// An upper-case hexadecimal digit is a hexadecimal digit and stands for the
/// number it was made from.
pub proof fn lemma_hex_char_value(n: nat)
    requires
        n < 16,
    ensures
        is_hex_digit(hex_char(n)),
        hex_digit_value(hex_char(n)) == n,
        hex_char(n) != ':',
        hex_char(n) != '-',
{
}

/// The canonical text of any six octets is the text of a hardware address,
/// and the octets it spells are those it was made from.
pub proof fn lemma_canonical_text_round_trip(octets: Seq<u8>)
    requires
        octets.len() == 6,
    ensures
        is_hw_text(hw_canonical_text(octets)),
        hw_text_octets(hw_canonical_text(octets)) == octets,
{
    let text = hw_canonical_text(octets);
    assert forall|i: int| 0 <= i < text.len() implies ((#[trigger] text[i] == ':' || text[i] == '-')
        <==> i % 3 == 2) by {
        lemma_hex_char_value(octets[i / 3] as nat / 16);
        lemma_hex_char_value(octets[i / 3] as nat % 16);
    }
    lemma_segments_of_pairs(text, ':', '-', 6);
    assert forall|k: int| 0 <= k < 6 implies is_hex_pair(#[trigger] hw_segments(text)[k])
        && hex_pair_value(hw_segments(text)[k]) == octets[k] by {
        lemma_hex_char_value(octets[k] as nat / 16);
        lemma_hex_char_value(octets[k] as nat % 16);
    }
}

/// Parsing a hardware address text and writing the result back gives a
/// canonical text that spells the same octets.
pub proof fn lemma_reserialized_text_keeps_octets(text: Seq<char>)
    requires
        is_hw_text(text),
    ensures
        is_hw_text(hw_canonical_text(hw_text_octets(text))),
        hw_text_octets(hw_canonical_text(hw_text_octets(text))) == hw_text_octets(text),
{
    lemma_canonical_text_round_trip(hw_text_octets(text));
}

} // verus!
