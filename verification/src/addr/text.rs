//! Splitting an address text into its octets' digits.
//!
//! An address is written as a row of octets with a separator between each
//! two. [`segments`] says what the pieces of a text are; [`split`] finds them.

use vstd::prelude::*;

verus! {

/// Why a text is not an address.
#[derive(Debug, Clone, Copy, PartialEq, Eq, Structural)]
pub enum AddressFormatError {
    /// The text holds a character that is neither a digit nor a separator.
    InvalidDigit,
    /// The text has too few or too many octets.
    SegmentCount,
    /// An octet is not written as its form asks: it is empty, too short or
    /// too long, has a leading zero, or is above the greatest octet.
    OctetRange,
}

/// The number of characters of `text` before its first separator; the length
/// of `text` if it has none. A separator is one of `a` and `b`.
pub open spec fn first_separator(text: Seq<char>, a: char, b: char) -> nat
    decreases text.len(),
{
    if text.len() == 0 || text[0] == a || text[0] == b {
        0
    } else {
        1 + first_separator(text.drop_first(), a, b)
    }
}

/// The pieces into which the separators `a` and `b` cut `text`, in order. A
/// text without separator is one piece; two separators in a row have an
/// empty piece between them.
pub open spec fn segments(text: Seq<char>, a: char, b: char) -> Seq<Seq<char>>
    decreases text.len(),
{
    let i = first_separator(text, a, b) as int;
    if i < text.len() {
        seq![text.subrange(0, i)] + segments(text.subrange(i + 1, text.len() as int), a, b)
    } else {
        seq![text]
    }
}

/// The place of a piece in a text: it starts at `start` and ends before
/// `end`.
#[derive(Debug, Clone, Copy)]
pub struct Span {
    pub start: usize,
    pub end: usize,
}

impl Span {
    /// The characters of `text` that the span covers.
    pub open spec fn of(&self, text: Seq<char>) -> Seq<char> {
        text.subrange(self.start as int, self.end as int)
    }

    /// The span lies inside a text of `len` characters.
    pub open spec fn within(&self, len: nat) -> bool {
        self.start <= self.end <= len
    }
}

/// A text whose first `k` characters are no separators, and which ends there
/// or has a separator there, has its first separator at `k`.
pub proof fn lemma_first_separator_at(text: Seq<char>, a: char, b: char, k: nat)
    requires
        k <= text.len(),
        forall|j: int| 0 <= j < k ==> text[j] != a && text[j] != b,
        k < text.len() ==> text[k as int] == a || text[k as int] == b,
    ensures
        first_separator(text, a, b) == k,
    decreases k,
{
    if k > 0 {
        lemma_first_separator_at(text.drop_first(), a, b, (k - 1) as nat);
    }
}

/// The first separator lies within the text, no separator stands before it,
/// and one stands at it unless the text ends there.
pub proof fn lemma_first_separator_is_first(text: Seq<char>, a: char, b: char)
    ensures
        first_separator(text, a, b) <= text.len(),
        forall|j: int|
            0 <= j < first_separator(text, a, b) ==> text[j] != a && #[trigger] text[j] != b,
        first_separator(text, a, b) < text.len() ==> {
            let k = first_separator(text, a, b) as int;
            text[k] == a || text[k] == b
        },
    decreases text.len(),
{
    if !(text.len() == 0 || text[0] == a || text[0] == b) {
        let rest = text.drop_first();
        lemma_first_separator_is_first(rest, a, b);
        assert forall|j: int| 0 <= j < first_separator(text, a, b) implies text[j] != a
            && #[trigger] text[j] != b by {
            if j > 0 {
                assert(text[j] == rest[j - 1]);
            }
        }
    }
}

/// Every character of a text is a separator or stands in one of its pieces.
pub proof fn lemma_segments_cover(text: Seq<char>, a: char, b: char, i: int)
    requires
        0 <= i < text.len(),
        text[i] != a,
        text[i] != b,
    ensures
        exists|k: int, j: int|
            0 <= k < segments(text, a, b).len() && 0 <= j < segments(text, a, b)[k].len()
                && #[trigger] segments(text, a, b)[k][j] == text[i],
    decreases text.len(),
{
    let first = first_separator(text, a, b) as int;
    lemma_first_separator_is_first(text, a, b);
    let pieces = segments(text, a, b);
    if first < text.len() {
        let rest = text.subrange(first + 1, text.len() as int);
        if i < first {
            assert(pieces[0][i] == text[i]);
        } else {
            lemma_segments_cover(rest, a, b, i - first - 1);
            let (k, j) = choose|k: int, j: int|
                0 <= k < segments(rest, a, b).len() && 0 <= j < segments(rest, a, b)[k].len()
                    && #[trigger] segments(rest, a, b)[k][j] == rest[i - first - 1];
            assert(pieces[k + 1] == segments(rest, a, b)[k]);
        }
    } else {
        assert(pieces[0][i] == text[i]);
    }
}

/// No piece of a text holds a separator.
pub proof fn lemma_segments_hold_no_separator(text: Seq<char>, a: char, b: char, k: int, j: int)
    requires
        0 <= k < segments(text, a, b).len(),
        0 <= j < segments(text, a, b)[k].len(),
    ensures
        segments(text, a, b)[k][j] != a,
        segments(text, a, b)[k][j] != b,
    decreases text.len(),
{
    let first = first_separator(text, a, b) as int;
    lemma_first_separator_is_first(text, a, b);
    if first < text.len() {
        let rest = text.subrange(first + 1, text.len() as int);
        if k > 0 {
            lemma_segments_hold_no_separator(rest, a, b, k - 1, j);
        }
    }
}

/// A text that holds no separator is one piece.
pub proof fn lemma_segments_of_piece(text: Seq<char>, a: char, b: char)
    requires
        forall|j: int| 0 <= j < text.len() ==> text[j] != a && text[j] != b,
    ensures
        segments(text, a, b) == seq![text],
{
    lemma_first_separator_at(text, a, b, text.len());
}

/// A text that starts with a piece and a separator is cut after that piece:
/// its pieces are that one and those of what follows the separator.
pub proof fn lemma_segments_after_piece(
    piece: Seq<char>,
    sep: char,
    rest: Seq<char>,
    a: char,
    b: char,
)
    requires
        forall|j: int| 0 <= j < piece.len() ==> piece[j] != a && piece[j] != b,
        sep == a || sep == b,
    ensures
        segments(piece + seq![sep] + rest, a, b) == seq![piece] + segments(rest, a, b),
{
    let text = piece + seq![sep] + rest;
    let k = piece.len();
    lemma_first_separator_at(text, a, b, k);
    assert(text.subrange(0, k as int) =~= piece);
    assert(text.subrange(k as int + 1, text.len() as int) =~= rest);
}

/// A text of `n` pieces of two characters each, with one separator between
/// each two and none elsewhere, is cut into exactly those pieces.
pub proof fn lemma_segments_of_pairs(text: Seq<char>, a: char, b: char, n: nat)
    requires
        n >= 1,
        text.len() == 3 * n - 1,
        forall|i: int|
            0 <= i < text.len() ==> ((#[trigger] text[i] == a || text[i] == b) <==> i % 3 == 2),
    ensures
        segments(text, a, b).len() == n,
        forall|k: int|
            0 <= k < n ==> #[trigger] segments(text, a, b)[k] == text.subrange(3 * k, 3 * k + 2),
    decreases n,
{
    lemma_first_separator_at(text, a, b, 2);
    if n > 1 {
        let rest = text.subrange(3, text.len() as int);
        lemma_segments_of_pairs(rest, a, b, (n - 1) as nat);
        assert forall|k: int| 0 <= k < n implies #[trigger] segments(text, a, b)[k]
            == text.subrange(3 * k, 3 * k + 2) by {
            if k > 0 {
                assert(rest.subrange(3 * (k - 1), 3 * (k - 1) + 2) =~= text.subrange(
                    3 * k,
                    3 * k + 2,
                ));
            }
        }
    }
}

/// Finds the end of the piece that starts at `start`: the place of the next
/// separator, or the end of the text.
fn piece_end(bytes: &[u8], start: usize, a: u8, b: u8) -> (end: usize)
    requires
        start <= bytes@.len(),
    ensures
        start <= end <= bytes@.len(),
        forall|j: int| start <= j < end ==> bytes@[j] != a && bytes@[j] != b,
        end < bytes@.len() ==> bytes@[end as int] == a || bytes@[end as int] == b,
{
    let mut end: usize = start;
    while end < bytes.len() && bytes[end] != a && bytes[end] != b
        invariant
            start <= end <= bytes@.len(),
            forall|j: int| start <= j < end ==> bytes@[j] != a && bytes@[j] != b,
        decreases bytes@.len() - end,
    {
        end = end + 1;
    }
    end
}

/// The text that a row of ASCII bytes spells.
pub open spec fn ascii_text(bytes: Seq<u8>) -> Seq<char> {
    Seq::new(bytes.len(), |i: int| bytes[i] as char)
}

/// Cuts ASCII text at the separators `a` and `b` and returns the place of
/// each piece.
pub(crate) fn split(bytes: &[u8], a: u8, b: u8) -> (spans: Vec<Span>)
    requires
        a < 128,
        b < 128,
        forall|i: int| 0 <= i < bytes@.len() ==> bytes@[i] < 128,
    ensures
        spans@.len() == segments(ascii_text(bytes@), a as char, b as char).len(),
        forall|k: int|
            0 <= k < spans@.len() ==> (#[trigger] spans@[k]).within(bytes@.len())
                && spans@[k].of(ascii_text(bytes@)) == segments(
                ascii_text(bytes@),
                a as char,
                b as char,
            )[k],
{
    let ghost text = ascii_text(bytes@);
    let ghost ca = a as char;
    let ghost cb = b as char;
    let mut spans: Vec<Span> = Vec::new();
    let mut start: usize = 0;
    proof {
        assert(text.subrange(0, text.len() as int) =~= text);
        assert(Seq::new(0, |k: int| spans@[k].of(text)) + segments(text, ca, cb) =~= segments(
            text,
            ca,
            cb,
        ));
    }
    loop
        invariant_except_break
            start <= bytes@.len(),
            segments(text, ca, cb) == Seq::new(spans@.len(), |k: int| spans@[k].of(text))
                + segments(text.subrange(start as int, text.len() as int), ca, cb),
        invariant
            a < 128,
            b < 128,
            ca == a as char,
            cb == b as char,
            text == ascii_text(bytes@),
            forall|i: int| 0 <= i < bytes@.len() ==> bytes@[i] < 128,
            forall|k: int| 0 <= k < spans@.len() ==> (#[trigger] spans@[k]).within(bytes@.len()),
        ensures
            segments(text, ca, cb) == Seq::new(spans@.len(), |k: int| spans@[k].of(text)),
        decreases bytes@.len() - start,
    {
        let end = piece_end(bytes, start, a, b);
        let ghost rest = text.subrange(start as int, text.len() as int);
        proof {
            lemma_first_separator_at(rest, ca, cb, (end - start) as nat);
        }
        spans.push(Span { start, end });
        proof {
            let grown = Seq::new(spans@.len(), |k: int| spans@[k].of(text));
            assert(rest.subrange(0, end - start) =~= text.subrange(start as int, end as int));
            if end < bytes@.len() {
                assert(rest.subrange(end - start + 1, rest.len() as int) =~= text.subrange(
                    end + 1,
                    text.len() as int,
                ));
                assert(segments(text, ca, cb) =~= grown + segments(
                    text.subrange(end + 1, text.len() as int),
                    ca,
                    cb,
                ));
            }
        }
        if end == bytes.len() {
            break ;
        }
        start = end + 1;
    }
    spans
}

} // verus!
