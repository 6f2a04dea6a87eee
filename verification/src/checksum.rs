//! The arithmetic of the Internet checksum.
//!
//! A region of bytes is read as 16-bit big-endian words. The words are summed
//! and the carries above bit 15 are folded back into the low 16 bits until
//! none is left. The checksum that a header carries is the bitwise complement
//! of that folded sum, so the folded sum over a header that carries its own
//! checksum is `0xFFFF`.

use crate::wire::be16_value;
use vstd::prelude::*;

verus! {

/// The sum of the 16-bit big-endian words of a region of even length.
pub open spec fn word_sum(bytes: Seq<u8>) -> nat
    decreases bytes.len(),
{
    if bytes.len() < 2 {
        0
    } else {
        let n = bytes.len() as int;
        word_sum(bytes.subrange(0, n - 2)) + be16_value(bytes[n - 2], bytes[n - 1]) as nat
    }
}

/// One folding step: the bits above bit 15 added to the low 16 bits.
pub open spec fn fold_once(sum: nat) -> nat {
    sum / 0x1_0000 + sum % 0x1_0000
}

/// The sum after its carries were folded in until it fits in 16 bits.
pub open spec fn fold_carries(sum: nat) -> nat
    decreases sum,
{
    if sum < 0x1_0000 {
        sum
    } else {
        fold_carries(fold_once(sum))
    }
}

/// The folded sum of the words of a region: what the checksum is the
/// complement of.
pub open spec fn folded_word_sum(bytes: Seq<u8>) -> nat {
    fold_carries(word_sum(bytes))
}

/// The bitwise complement of a 16-bit value.
pub open spec fn complement(sum: nat) -> nat
    recommends
        sum <= 0xFFFF,
{
    (0xFFFF - sum) as nat
}

/// The region with the word at `offset` replaced by `hi`, `lo`.
pub open spec fn with_word(bytes: Seq<u8>, offset: int, hi: u8, lo: u8) -> Seq<u8>
    recommends
        0 <= offset,
        offset + 2 <= bytes.len(),
{
    bytes.update(offset, hi).update(offset + 1, lo)
}

/// Folding is end-around carry: the folded sum is zero for zero and otherwise
/// the representative of the sum modulo `0xFFFF` in `1..=0xFFFF`.
pub proof fn lemma_fold_carries_closed_form(sum: nat)
    ensures
        fold_carries(sum) == if sum == 0 {
            0
        } else {
            ((sum - 1) % 0xFFFF + 1) as nat
        },
        fold_carries(sum) <= 0xFFFF,
    decreases sum,
{
    if sum >= 0x1_0000 {
        let q = sum / 0x1_0000;
        let next = fold_once(sum);
        lemma_fold_carries_closed_form(next);
        assert(sum - 1 == 0xFFFF * q + (next - 1));
        vstd::arithmetic::div_mod::lemma_mod_multiples_vanish(q as int, next - 1, 0xFFFF);
    }
}

/// Replacing one word of a region changes the word sum by the difference of
/// the two words.
pub proof fn lemma_word_sum_with_word(bytes: Seq<u8>, offset: int, hi: u8, lo: u8)
    requires
        bytes.len() % 2 == 0,
        0 <= offset,
        offset % 2 == 0,
        offset + 2 <= bytes.len(),
    ensures
        word_sum(with_word(bytes, offset, hi, lo)) + be16_value(bytes[offset], bytes[offset + 1])
            == word_sum(bytes) + be16_value(hi, lo),
    decreases bytes.len(),
{
    let n = bytes.len() as int;
    let changed = with_word(bytes, offset, hi, lo);
    if offset + 2 == n {
        assert(changed.subrange(0, n - 2) =~= bytes.subrange(0, n - 2));
    } else {
        lemma_word_sum_with_word(bytes.subrange(0, n - 2), offset, hi, lo);
        assert(changed.subrange(0, n - 2) =~= with_word(bytes.subrange(0, n - 2), offset, hi, lo));
    }
}

/// A region that carries, in one of its words, the complement of the folded
/// sum of its other words folds to `0xFFFF`.
pub proof fn lemma_complement_folds_to_ones(bytes: Seq<u8>, offset: int)
    requires
        bytes.len() % 2 == 0,
        0 <= offset,
        offset % 2 == 0,
        offset + 2 <= bytes.len(),
    ensures
        ({
            let cleared = with_word(bytes, offset, 0, 0);
            let check = complement(folded_word_sum(cleared));
            let sealed = with_word(bytes, offset, (check / 256) as u8, (check % 256) as u8);
            folded_word_sum(sealed) == 0xFFFF
        }),
{
    let cleared = with_word(bytes, offset, 0, 0);
    let rest = word_sum(cleared);
    let check = complement(folded_word_sum(cleared));
    let hi = (check / 256) as u8;
    let lo = (check % 256) as u8;
    let sealed = with_word(bytes, offset, hi, lo);
    lemma_fold_carries_closed_form(rest);
    lemma_word_sum_with_word(cleared, offset, hi, lo);
    assert(with_word(cleared, offset, hi, lo) =~= sealed);
    let total = rest + check;
    assert(word_sum(sealed) == total);
    lemma_fold_carries_closed_form(total);
    if rest != 0 {
        let k = (rest - 1) / 0xFFFF;
        assert(total - 1 == 0xFFFF * k + 0xFFFE);
        vstd::arithmetic::div_mod::lemma_mod_multiples_vanish(k, 0xFFFE, 0xFFFF);
    }
}

} // verus!
