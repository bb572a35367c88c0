//! The mathematical model of appending chunks: what a sequence of chunks
//! holds when its bytes are laid end to end, and the facts about it that
//! the accumulator's contracts rest on.

use crate::buffer::bytes_view;
use bytes::Bytes;
use vstd::prelude::*;
use vstd::seq_lib::lemma_flatten_concat;

verus! {

/// What each of `chunks` holds, chunk by chunk.
pub open spec fn chunk_views(chunks: Seq<Bytes>) -> Seq<Seq<u8>> {
    chunks.map_values(|chunk: Bytes| bytes_view(chunk))
}

/// The bytes of `chunks` laid end to end, those of the first chunk first.
pub open spec fn concat(chunks: Seq<Bytes>) -> Seq<u8> {
    chunk_views(chunks).flatten()
}

/// No chunks hold no bytes.
pub proof fn lemma_concat_empty()
    ensures
        concat(Seq::<Bytes>::empty()) == Seq::<u8>::empty(),
{
    assert(chunk_views(Seq::<Bytes>::empty()) =~= Seq::<Seq<u8>>::empty());
}

/// A single chunk laid end to end is that chunk.
pub proof fn lemma_concat_single(chunk: Bytes)
    ensures
        concat(seq![chunk]) == bytes_view(chunk),
{
    let views = chunk_views(seq![chunk]);
    assert(views.len() == 1);
    assert(views[0] == bytes_view(chunk));
    views.lemma_flatten_one_element();
}

/// Laying out `first` followed by `second` gives the bytes of `first`
/// followed by the bytes of `second`.
pub proof fn lemma_concat_append(first: Seq<Bytes>, second: Seq<Bytes>)
    ensures
        concat(first + second) == concat(first) + concat(second),
{
    assert(chunk_views(first + second) =~= chunk_views(first) + chunk_views(second));
    lemma_flatten_concat(chunk_views(first), chunk_views(second));
}

/// One more chunk at the end adds exactly its bytes at the end.
pub proof fn lemma_concat_push(chunks: Seq<Bytes>, chunk: Bytes)
    ensures
        concat(chunks.push(chunk)) == concat(chunks) + bytes_view(chunk),
{
    assert(chunks.push(chunk) =~= chunks + seq![chunk]);
    lemma_concat_append(chunks, seq![chunk]);
    lemma_concat_single(chunk);
}

/// The first `n` chunks hold no more bytes than all of them do, and one
/// chunk more holds the bytes of the first `n` followed by its own.
pub proof fn lemma_concat_prefix(chunks: Seq<Bytes>, n: int)
    requires
        0 <= n < chunks.len(),
    ensures
        concat(chunks.take(n + 1)) == concat(chunks.take(n)) + bytes_view(chunks[n]),
        concat(chunks.take(n + 1)).len() <= concat(chunks).len(),
{
    assert(chunks.take(n + 1) =~= chunks.take(n).push(chunks[n]));
    lemma_concat_push(chunks.take(n), chunks[n]);
    assert(chunks =~= chunks.take(n + 1) + chunks.skip(n + 1));
    lemma_concat_append(chunks.take(n + 1), chunks.skip(n + 1));
}

/// Chunks that all hold `size` bytes hold, laid end to end, `size` bytes
/// for each of them.
pub proof fn lemma_concat_uniform_len(chunks: Seq<Bytes>, size: nat)
    requires
        forall|i: int| 0 <= i < chunks.len() ==> bytes_view(#[trigger] chunks[i]).len() == size,
    ensures
        concat(chunks).len() == chunks.len() * size,
    decreases chunks.len(),
{
    if chunks.len() == 0 {
        lemma_concat_empty();
        assert(chunks =~= Seq::<Bytes>::empty());
    } else {
        let front = chunks.drop_last();
        lemma_concat_uniform_len(front, size);
        assert(chunks =~= front.push(chunks.last()));
        lemma_concat_push(front, chunks.last());
        assert(chunks.len() * size == front.len() * size + size) by (nonlinear_arith)
            requires
                chunks.len() == front.len() + 1,
        ;
    }
}

} // verus!
