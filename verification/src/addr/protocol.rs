//! Network-layer addresses.
//!
//! A protocol address is the four octets of an IPv4 address. Its text is
//! dotted decimal: four octets from 0 to 255, written without leading zeros,
//! with a dot between each two.

use crate::addr::text::{
    ascii_text, lemma_segments_after_piece, lemma_segments_cover, lemma_segments_of_piece, segments,
    split, AddressFormatError, Span,
};
use vstd::prelude::*;
use vstd::string::{is_ascii_spec_bytes, StringExecFns};

verus! {

/// A decimal digit.
pub open spec fn is_dec_digit(c: char) -> bool {
    '0' <= c && c <= '9'
}

/// What a decimal digit stands for.
pub open spec fn dec_digit_value(c: char) -> nat
    recommends
        is_dec_digit(c),
{
    (c as nat - '0' as nat) as nat
}

/// The number that a row of decimal digits spells.
pub open spec fn dec_value(piece: Seq<char>) -> nat
    decreases piece.len(),
{
    if piece.len() == 0 {
        0
    } else {
        10 * dec_value(piece.drop_last()) + dec_digit_value(piece.last())
    }
}

/// An octet in decimal: one to three digits, no leading zero, at most 255.
pub open spec fn is_dec_octet(piece: Seq<char>) -> bool {
    &&& 1 <= piece.len() <= 3
    &&& forall|j: int| 0 <= j < piece.len() ==> is_dec_digit(#[trigger] piece[j])
    &&& (piece.len() > 1 ==> piece[0] != '0')
    &&& dec_value(piece) <= 255
}

/// The pieces of a protocol address text: it is cut at dots.
pub open spec fn ip_segments(text: Seq<char>) -> Seq<Seq<char>> {
    segments(text, '.', '.')
}

/// The text of a protocol address: four decimal octets.
pub open spec fn is_ip_text(text: Seq<char>) -> bool {
    &&& ip_segments(text).len() == 4
    &&& forall|k: int| 0 <= k < 4 ==> is_dec_octet(#[trigger] ip_segments(text)[k])
}

/// The four octets that a protocol address text spells.
pub open spec fn ip_text_octets(text: Seq<char>) -> Seq<u8>
    recommends
        is_ip_text(text),
{
    Seq::new(4, |k: int| dec_value(ip_segments(text)[k]) as u8)
}

/// A character that may stand in a protocol address text.
pub open spec fn is_ip_char(c: char) -> bool {
    is_dec_digit(c) || c == '.'
}

/// What is wrong with a text that is no protocol address. A foreign
/// character is reported first, then a wrong number of octets, then an
/// octet that is empty, too long, written with a leading zero or above 255.
pub open spec fn ip_text_error(text: Seq<char>) -> AddressFormatError
    recommends
        !is_ip_text(text),
{
    if exists|i: int| 0 <= i < text.len() && !is_ip_char(#[trigger] text[i]) {
        AddressFormatError::InvalidDigit
    } else if ip_segments(text).len() != 4 {
        AddressFormatError::SegmentCount
    } else {
        AddressFormatError::OctetRange
    }
}

/// The decimal digit that stands for `n`.
pub open spec fn dec_char(n: nat) -> char
    recommends
        n < 10,
{
    seq!['0', '1', '2', '3', '4', '5', '6', '7', '8', '9'][n as int]
}

/// A number below 1000 in decimal, without leading zeros.
pub open spec fn dec_digits(n: nat) -> Seq<char>
    recommends
        n < 1000,
{
    if n < 10 {
        seq![dec_char(n)]
    } else if n < 100 {
        seq![dec_char(n / 10), dec_char(n % 10)]
    } else {
        seq![dec_char(n / 100), dec_char(n / 10 % 10), dec_char(n % 10)]
    }
}

/// The canonical text of four octets: dotted decimal.
pub open spec fn ip_canonical_text(octets: Seq<u8>) -> Seq<char>
    recommends
        octets.len() == 4,
{
    dec_digits(octets[0] as nat) + seq!['.'] + dec_digits(octets[1] as nat) + seq!['.']
        + dec_digits(octets[2] as nat) + seq!['.'] + dec_digits(octets[3] as nat)
}

/// A four-octet network-layer address.
#[derive(Debug, Clone, Copy)]
pub struct ProtocolAddress {
    octets: [u8; 4],
}

impl View for ProtocolAddress {
    type V = Seq<u8>;

    open spec fn view(&self) -> Seq<u8> {
        self.octets()@
    }
}

/// Reads the decimal octet that stands at `span`, if one stands there.
fn dec_octet(bytes: &[u8], span: Span) -> (octet: Option<u8>)
    requires
        span.within(bytes@.len()),
        forall|i: int| 0 <= i < bytes@.len() ==> #[trigger] bytes@[i] < 128,
    ensures
        match octet {
            Some(v) => is_dec_octet(span.of(ascii_text(bytes@))) && v == dec_value(
                span.of(ascii_text(bytes@)),
            ),
            None => !is_dec_octet(span.of(ascii_text(bytes@))),
        },
{
    let ghost piece = span.of(ascii_text(bytes@));
    let len: usize = span.end - span.start;
    if len == 0 || len > 3 {
        return None;
    }
    let mut value: u16 = 0;
    let mut j: usize = 0;
    while j < len
        invariant
            j <= len <= 3,
            len == span.end - span.start,
            span.within(bytes@.len()),
            piece == span.of(ascii_text(bytes@)),
            forall|i: int| 0 <= i < bytes@.len() ==> #[trigger] bytes@[i] < 128,
            forall|i: int| 0 <= i < j ==> is_dec_digit(#[trigger] piece[i]),
            value == dec_value(piece.subrange(0, j as int)),
            value <= 999,
            j <= 2 ==> value <= 99,
            j <= 1 ==> value <= 9,
            j == 0 ==> value == 0,
        decreases len - j,
    {
        let b = bytes[span.start + j];
        assert(piece[j as int] == b as char);
        if b < 0x30 || b > 0x39 {
            return None;
        }
        proof {
            let grown = piece.subrange(0, j + 1);
            assert(grown.drop_last() =~= piece.subrange(0, j as int));
        }
        value = value * 10 + (b - 0x30) as u16;
        j = j + 1;
    }
    assert(piece.subrange(0, len as int) =~= piece);
    if len > 1 && bytes[span.start] == 0x30 {
        return None;
    }
    if value > 255 {
        return None;
    }
    Some(value as u8)
}

/// The decimal digit for a number below ten.
fn dec_str(n: u8) -> (digit: &'static str)
    requires
        n < 10,
    ensures
        digit@ == seq![dec_char(n as nat)],
{
    proof {
        reveal_strlit("0");
        reveal_strlit("1");
        reveal_strlit("2");
        reveal_strlit("3");
        reveal_strlit("4");
        reveal_strlit("5");
        reveal_strlit("6");
        reveal_strlit("7");
        reveal_strlit("8");
        reveal_strlit("9");
    }
    match n {
        0 => "0",
        1 => "1",
        2 => "2",
        3 => "3",
        4 => "4",
        5 => "5",
        6 => "6",
        7 => "7",
        8 => "8",
        _ => "9",
    }
}

/// Writes an octet in decimal at the end of a text.
fn push_octet(text: &mut String, octet: u8)
    ensures
        final(text)@ == old(text)@ + dec_digits(octet as nat),
{
    if octet >= 100 {
        text.append(dec_str(octet / 100));
    }
    if octet >= 10 {
        text.append(dec_str(octet / 10 % 10));
    }
    text.append(dec_str(octet % 10));
}

impl ProtocolAddress {
    /// The octets, in transmission order.
    pub closed spec fn octets(&self) -> [u8; 4] {
        self.octets
    }

    /// The address with the given octets.
    pub fn new(octets: [u8; 4]) -> (addr: Self)
        ensures
            addr.octets() == octets,
    {
        ProtocolAddress { octets }
    }

    /// The raw octets of the address.
    pub fn to_bytes(&self) -> (octets: [u8; 4])
        ensures
            octets == self.octets(),
    {
        self.octets
    }

    /// The canonical text of the address, such as `192.168.1.1`.
    pub fn to_text(&self) -> (text: String)
        ensures
            text@ == ip_canonical_text(self@),
    {
        proof {
            reveal_strlit(".");
        }
        let mut text = String::new();
        push_octet(&mut text, self.octets[0]);
        text.append(".");
        push_octet(&mut text, self.octets[1]);
        text.append(".");
        push_octet(&mut text, self.octets[2]);
        text.append(".");
        push_octet(&mut text, self.octets[3]);
        text
    }

    /// Reads an address from its text. A text that is no address is
    /// rejected, and nothing is built from a part of it.
    pub fn parse(text: &str) -> (parsed: Result<ProtocolAddress, AddressFormatError>)
        ensures
            match parsed {
                Ok(addr) => is_ip_text(text@) && addr@ == ip_text_octets(text@),
                Err(e) => !is_ip_text(text@) && e == ip_text_error(text@),
            },
    {
        if !text.is_ascii() {
            proof {
                let i = choose|i: int|
                    0 <= i < text@.len() && !('\0' <= #[trigger] text@[i] <= '\u{7f}');
                lemma_foreign_char_spoils(text@, i);
            }
            return Err(AddressFormatError::InvalidDigit);
        }
        let bytes = text.as_bytes();
        proof {
            is_ascii_spec_bytes(text);
        }
        let mut i: usize = 0;
        while i < bytes.len()
            invariant
                i <= bytes@.len(),
                text@ == ascii_text(bytes@),
                forall|j: int| 0 <= j < bytes@.len() ==> #[trigger] bytes@[j] < 128,
                forall|j: int| 0 <= j < i ==> is_ip_char(#[trigger] text@[j]),
            decreases bytes@.len() - i,
        {
            let b = bytes[i];
            if !((0x30 <= b && b <= 0x39) || b == 0x2e) {
                proof {
                    assert(!is_ip_char(text@[i as int]));
                    lemma_foreign_char_spoils(text@, i as int);
                }
                return Err(AddressFormatError::InvalidDigit);
            }
            i = i + 1;
        }
        let spans = split(bytes, 0x2e, 0x2e);
        if spans.len() != 4 {
            return Err(AddressFormatError::SegmentCount);
        }
        let a = dec_octet(bytes, spans[0]);
        let b = dec_octet(bytes, spans[1]);
        let c = dec_octet(bytes, spans[2]);
        let d = dec_octet(bytes, spans[3]);
        match (a, b, c, d) {
            (Some(a), Some(b), Some(c), Some(d)) => Ok(ProtocolAddress { octets: [a, b, c, d] }),
            _ => Err(AddressFormatError::OctetRange),
        }
    }
}

/// A text that holds a character which is neither a decimal digit nor a dot
/// is no protocol address.
pub proof fn lemma_foreign_char_spoils(text: Seq<char>, i: int)
    requires
        0 <= i < text.len(),
        !is_ip_char(text[i]),
    ensures
        !is_ip_text(text),
{
    lemma_segments_cover(text, '.', '.', i);
}

/// The decimal text of an octet is a decimal octet, holds no dot, and
/// spells the octet.
pub proof fn lemma_dec_digits_value(n: nat)
    requires
        n <= 255,
    ensures
        is_dec_octet(dec_digits(n)),
        dec_value(dec_digits(n)) == n,
        forall|j: int| 0 <= j < dec_digits(n).len() ==> dec_digits(n)[j] != '.',
{
    reveal_with_fuel(dec_value, 4);
}

/// The canonical text of any four octets is the text of a protocol address,
/// and the octets it spells are those it was made from.
pub proof fn lemma_canonical_text_round_trip(octets: Seq<u8>)
    requires
        octets.len() == 4,
    ensures
        is_ip_text(ip_canonical_text(octets)),
        ip_text_octets(ip_canonical_text(octets)) == octets,
{
    let d0 = dec_digits(octets[0] as nat);
    let d1 = dec_digits(octets[1] as nat);
    let d2 = dec_digits(octets[2] as nat);
    let d3 = dec_digits(octets[3] as nat);
    lemma_dec_digits_value(octets[0] as nat);
    lemma_dec_digits_value(octets[1] as nat);
    lemma_dec_digits_value(octets[2] as nat);
    lemma_dec_digits_value(octets[3] as nat);
    let t2 = d2 + seq!['.'] + d3;
    let t1 = d1 + seq!['.'] + t2;
    let t0 = d0 + seq!['.'] + t1;
    assert(t0 =~= ip_canonical_text(octets));
    lemma_segments_of_piece(d3, '.', '.');
    lemma_segments_after_piece(d2, '.', d3, '.', '.');
    lemma_segments_after_piece(d1, '.', t2, '.', '.');
    lemma_segments_after_piece(d0, '.', t1, '.', '.');
}

/// Parsing a protocol address text and writing the result back gives a
/// canonical text that spells the same octets.
pub proof fn lemma_reserialized_text_keeps_octets(text: Seq<char>)
    requires
        is_ip_text(text),
    ensures
        is_ip_text(ip_canonical_text(ip_text_octets(text))),
        ip_text_octets(ip_canonical_text(ip_text_octets(text))) == ip_text_octets(text),
{
    lemma_canonical_text_round_trip(ip_text_octets(text));
}

} // verus!
