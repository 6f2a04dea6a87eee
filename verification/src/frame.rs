//! Composing a frame from the bytes of its layers.
//!
//! A frame is its layers laid end to end, in the order given, followed by
//! the payload if there is one. Nothing is added between them and nothing
//! in them is looked at.

use crate::wire::{
    buf_contents, buf_freeze, buf_put_slice, buf_with_capacity, bytes_as_slice, bytes_contents,
    bytes_remaining,
};
use bytes::Bytes;
use vstd::prelude::*;

verus! {

/// The parts laid end to end.
pub open spec fn concat(parts: Seq<Seq<u8>>) -> Seq<u8>
    decreases parts.len(),
{
    if parts.len() == 0 {
        Seq::empty()
    } else {
        concat(parts.drop_last()) + parts.last()
    }
}

/// The sum of the lengths of the parts.
pub open spec fn total_len(parts: Seq<Seq<u8>>) -> nat
    decreases parts.len(),
{
    if parts.len() == 0 {
        0
    } else {
        total_len(parts.drop_last()) + parts.last().len()
    }
}

/// Where part `i` starts in the whole: the sum of the lengths of the parts
/// before it.
pub open spec fn start_of(parts: Seq<Seq<u8>>, i: int) -> nat
    recommends
        0 <= i <= parts.len(),
{
    total_len(parts.take(i))
}

/// What each of the buffers holds.
pub open spec fn contents_of(layers: Seq<Bytes>) -> Seq<Seq<u8>> {
    Seq::new(layers.len(), |i: int| bytes_contents(layers[i]))
}

/// What the payload holds; nothing if there is none.
pub open spec fn payload_contents(payload: Option<&Bytes>) -> Seq<u8> {
    match payload {
        Some(bytes) => bytes_contents(*bytes),
        None => Seq::empty(),
    }
}

/// The bytes of a frame: its layers in order, then its payload.
pub open spec fn frame_bytes(layers: Seq<Bytes>, payload: Option<&Bytes>) -> Seq<u8> {
    concat(contents_of(layers)) + payload_contents(payload)
}

/// The whole is as long as its parts together.
pub proof fn lemma_concat_len(parts: Seq<Seq<u8>>)
    ensures
        concat(parts).len() == total_len(parts),
    decreases parts.len(),
{
    if parts.len() > 0 {
        lemma_concat_len(parts.drop_last());
    }
}

/// Each part starts where the one before it ends, and the last one ends
/// where the whole ends.
pub proof fn lemma_start_of_next(parts: Seq<Seq<u8>>, i: int)
    requires
        0 <= i < parts.len(),
    ensures
        start_of(parts, i + 1) == start_of(parts, i) + parts[i].len(),
        start_of(parts, 0) == 0,
        start_of(parts, parts.len() as int) == total_len(parts),
{
    assert(parts.take(i + 1).drop_last() =~= parts.take(i));
    assert(parts.take(parts.len() as int) =~= parts);
}

/// The parts before any place take no more room than all of them.
pub proof fn lemma_start_of_bounded(parts: Seq<Seq<u8>>, i: int)
    requires
        0 <= i <= parts.len(),
    ensures
        start_of(parts, i) <= total_len(parts),
    decreases parts.len() - i,
{
    if i < parts.len() {
        lemma_start_of_next(parts, i);
        lemma_start_of_bounded(parts, i + 1);
    } else {
        assert(parts.take(i) =~= parts);
    }
}

/// Every part stands in the whole unchanged, at its start.
pub proof fn lemma_concat_keeps_part(parts: Seq<Seq<u8>>, i: int)
    requires
        0 <= i < parts.len(),
    ensures
        start_of(parts, i) + parts[i].len() <= concat(parts).len(),
        concat(parts).subrange(
            start_of(parts, i) as int,
            (start_of(parts, i) + parts[i].len()) as int,
        ) == parts[i],
    decreases parts.len(),
{
    let front = parts.drop_last();
    lemma_concat_len(front);
    lemma_concat_len(parts);
    if i == parts.len() - 1 {
        assert(concat(parts).subrange(
            start_of(parts, i) as int,
            (start_of(parts, i) + parts[i].len()) as int,
        ) =~= parts[i]);
    } else {
        lemma_concat_keeps_part(front, i);
        assert(front.take(i) =~= parts.take(i));
        assert(concat(parts).subrange(
            start_of(parts, i) as int,
            (start_of(parts, i) + parts[i].len()) as int,
        ) =~= concat(front).subrange(
            start_of(front, i) as int,
            (start_of(front, i) + front[i].len()) as int,
        ));
    }
}

/// Every byte of the whole is a byte of one part: the part within which
/// its offset falls.
pub proof fn lemma_concat_byte_source(parts: Seq<Seq<u8>>, k: int) -> (i: int)
    requires
        0 <= k < concat(parts).len(),
    ensures
        0 <= i < parts.len(),
        start_of(parts, i) <= k < start_of(parts, i) + parts[i].len(),
        concat(parts)[k] == parts[i][k - start_of(parts, i)],
    decreases parts.len(),
{
    let front = parts.drop_last();
    let last = parts.len() - 1;
    lemma_concat_len(front);
    if k < concat(front).len() {
        let i = lemma_concat_byte_source(front, k);
        assert(front.take(i) =~= parts.take(i));
        i
    } else {
        last
    }
}

/// Lays the layers end to end, and the payload after them.
pub fn compose(layers: &Vec<Bytes>, payload: Option<&Bytes>) -> (frame: Bytes)
    requires
        frame_bytes(layers@, payload).len() <= isize::MAX,
    ensures
        bytes_contents(frame) == frame_bytes(layers@, payload),
{
    let ghost parts = contents_of(layers@);
    let mut buf = buf_with_capacity(0);
    let mut i: usize = 0;
    while i < layers.len()
        invariant
            i <= layers@.len(),
            parts == contents_of(layers@),
            concat(parts).len() <= isize::MAX,
            buf_contents(buf) == concat(parts.take(i as int)),
        decreases layers@.len() - i,
    {
        proof {
            lemma_concat_len(parts);
            lemma_concat_len(parts.take(i as int));
            lemma_concat_len(parts.take(i + 1));
            lemma_start_of_next(parts, i as int);
            lemma_start_of_bounded(parts, i + 1);
            assert(parts.take(i + 1).drop_last() =~= parts.take(i as int));
        }
        buf_put_slice(&mut buf, bytes_as_slice(&layers[i]));
        i = i + 1;
    }
    proof {
        assert(parts.take(i as int) =~= parts);
    }
    if let Some(bytes) = payload {
        buf_put_slice(&mut buf, bytes_as_slice(bytes));
    }
    buf_freeze(buf)
}

/// The payload is the last part of a frame: what holds of the parts of a
/// whole holds of the layers and the payload of a frame.
pub proof fn lemma_frame_is_concat(layers: Seq<Bytes>, payload: Option<&Bytes>)
    ensures
        frame_bytes(layers, payload) == concat(
            contents_of(layers).push(payload_contents(payload)),
        ),
{
    let parts = contents_of(layers).push(payload_contents(payload));
    assert(parts.drop_last() =~= contents_of(layers));
}

/// Composes a frame if it can be held in memory: lays the layers end to
/// end, and the payload after them, unless their lengths together exceed
/// what a buffer can hold.
pub fn try_compose(layers: &Vec<Bytes>, payload: Option<&Bytes>) -> (frame: Option<Bytes>)
    ensures
        match frame {
            Some(bytes) => bytes_contents(bytes) == frame_bytes(layers@, payload),
            None => frame_bytes(layers@, payload).len() > isize::MAX,
        },
{
    let ghost parts = contents_of(layers@);
    let limit: usize = isize::MAX as usize;
    let mut total: usize = 0;
    let mut i: usize = 0;
    proof {
        lemma_concat_len(parts);
    }
    while i < layers.len()
        invariant
            i <= layers@.len(),
            parts == contents_of(layers@),
            limit == isize::MAX,
            total == start_of(parts, i as int),
            total <= limit,
            concat(parts).len() == total_len(parts),
        decreases layers@.len() - i,
    {
        let len: usize = bytes_remaining(&layers[i]);
        proof {
            lemma_start_of_next(parts, i as int);
            lemma_start_of_bounded(parts, i + 1);
        }
        if len > limit - total {
            return None;
        }
        total = total + len;
        i = i + 1;
    }
    proof {
        assert(parts.take(i as int) =~= parts);
    }
    if let Some(bytes) = payload {
        if bytes_remaining(bytes) > limit - total {
            return None;
        }
    }
    Some(compose(layers, payload))
}

} // verus!
