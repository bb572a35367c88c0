//! What holds of the accumulator's operations taken together.
//!
//! Each statement speaks of accumulators and buffers in the states in which
//! `new`, `extend` and `Bytes::from` are specified to leave them, and is
//! proved from those specifications alone.

use crate::buffer::bytes_view;
use crate::collect::BytesCollect;
use crate::concat::{
    concat, lemma_concat_append, lemma_concat_empty, lemma_concat_single,
    lemma_concat_uniform_len,
};
use bytes::Bytes;
use vstd::prelude::*;

verus! {

/// Whether `out` is what comes of a new accumulator that is extended once
/// with `chunks` and then turned into a `Bytes`: `fresh` is the accumulator
/// as `new` returns it and `filled` as `extend` leaves it.
pub open spec fn collected(
    fresh: BytesCollect,
    filled: BytesCollect,
    chunks: Seq<Bytes>,
    out: Bytes,
) -> bool {
    &&& fresh@ == Seq::<u8>::empty()
    &&& filled@ == fresh@ + concat(chunks)
    &&& bytes_view(out) == filled@
}

/// Collecting a sequence of chunks yields their bytes laid end to end.
pub proof fn lemma_collect_is_concat(
    fresh: BytesCollect,
    filled: BytesCollect,
    chunks: Seq<Bytes>,
    out: Bytes,
)
    requires
        collected(fresh, filled, chunks, out),
    ensures
        bytes_view(out) == concat(chunks),
{
    assert(Seq::<u8>::empty() + concat(chunks) =~= concat(chunks));
}

/// Extending with `first` and then with `second` leaves an accumulator as one
/// extension with `first + second` does.
pub proof fn lemma_extend_in_parts(
    start: BytesCollect,
    after_first: BytesCollect,
    after_second: BytesCollect,
    at_once: BytesCollect,
    first: Seq<Bytes>,
    second: Seq<Bytes>,
)
    requires
        after_first@ == start@ + concat(first),
        after_second@ == after_first@ + concat(second),
        at_once@ == start@ + concat(first + second),
    ensures
        after_second@ == at_once@,
{
    lemma_concat_append(first, second);
    assert((start@ + concat(first)) + concat(second) =~= start@ + (concat(first) + concat(
        second,
    )));
}

/// Collecting a single chunk yields a buffer with the bytes of that chunk,
/// and so with its length.
pub proof fn lemma_collect_single(
    fresh: BytesCollect,
    filled: BytesCollect,
    chunk: Bytes,
    out: Bytes,
)
    requires
        collected(fresh, filled, seq![chunk], out),
    ensures
        bytes_view(out) == bytes_view(chunk),
        bytes_view(out).len() == bytes_view(chunk).len(),
{
    lemma_collect_is_concat(fresh, filled, seq![chunk], out);
    lemma_concat_single(chunk);
}

/// Collecting chunks of `size` bytes each yields a buffer of `size` bytes
/// for every chunk.
pub proof fn lemma_collect_uniform_len(
    fresh: BytesCollect,
    filled: BytesCollect,
    chunks: Seq<Bytes>,
    size: nat,
    out: Bytes,
)
    requires
        collected(fresh, filled, chunks, out),
        forall|i: int| 0 <= i < chunks.len() ==> bytes_view(#[trigger] chunks[i]).len() == size,
    ensures
        bytes_view(out).len() == chunks.len() * size,
{
    lemma_collect_is_concat(fresh, filled, chunks, out);
    lemma_concat_uniform_len(chunks, size);
}

/// The bytes held after a run of calls of `extend`, the first with
/// `calls[0]`, on an accumulator that held `start`.
pub open spec fn after_extends(start: Seq<u8>, calls: Seq<Seq<Bytes>>) -> Seq<u8>
    decreases calls.len(),
{
    if calls.len() == 0 {
        start
    } else {
        after_extends(start, calls.drop_last()) + concat(calls.last())
    }
}

/// However the chunks are spread over calls of `extend`, the accumulator
/// holds what it held at the start followed by every chunk appended since,
/// in the order in which they were appended.
pub proof fn lemma_extends_accumulate(start: Seq<u8>, calls: Seq<Seq<Bytes>>)
    ensures
        after_extends(start, calls) == start + concat(calls.flatten()),
    decreases calls.len(),
{
    if calls.len() == 0 {
        lemma_concat_empty();
        assert(calls.flatten() =~= Seq::<Bytes>::empty());
        assert(start + Seq::<u8>::empty() =~= start);
    } else {
        let earlier = calls.drop_last();
        lemma_extends_accumulate(start, earlier);
        assert(calls =~= earlier.push(calls.last()));
        earlier.lemma_flatten_push(calls.last());
        lemma_concat_append(earlier.flatten(), calls.last());
        assert((start + concat(earlier.flatten())) + concat(calls.last()) =~= start + (concat(
            earlier.flatten(),
        ) + concat(calls.last())));
    }
}

} // verus!
