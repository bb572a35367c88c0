//! The accumulator: a growable buffer that byte chunks are appended to, and
//! that is turned into one immutable buffer at the end.

use crate::buffer::{bytes_mut_view, bytes_view, put_chunk};
use crate::concat::{concat, lemma_concat_empty, lemma_concat_prefix};
use bytes::{Bytes, BytesMut};
use vstd::prelude::*;

verus! {

/// Whether a buffer that holds `held` bytes can take `incoming` more: no
/// buffer holds more than `isize::MAX` bytes.
pub open spec fn fits(held: nat, incoming: nat) -> bool {
    held + incoming <= isize::MAX
}

/// Gathers `Bytes` chunks into one contiguous buffer.
///
/// The accumulator is seen through its view, the bytes appended so far in
/// the order in which they were appended. It starts empty, grows by
/// [`extend`](BytesCollect::extend), and is consumed by `Bytes::from`, which
/// freezes the buffer in place.
pub struct BytesCollect {
    buffer: BytesMut,
}

impl View for BytesCollect {
    type V = Seq<u8>;

    closed spec fn view(&self) -> Seq<u8> {
        bytes_mut_view(self.buffer)
    }
}

impl Default for BytesCollect {
    /// An accumulator that holds no bytes.
    fn default() -> (collect: Self)
        ensures
            collect@ == Seq::<u8>::empty(),
    {
        BytesCollect { buffer: BytesMut::default() }
    }
}

impl BytesCollect {
    /// An accumulator that holds no bytes.
    pub fn new() -> (collect: Self)
        ensures
            collect@ == Seq::<u8>::empty(),
    {
        Self::default()
    }

    /// Appends the bytes of every chunk, in the order of `chunks`, behind the
    /// bytes already held.
    ///
    /// The bytes held afterwards must not be more than a buffer can hold;
    /// [`try_extend`](BytesCollect::try_extend) tests this first.
    pub fn extend(&mut self, chunks: Vec<Bytes>)
        requires
            fits(old(self)@.len(), concat(chunks@).len()),
        ensures
            final(self)@ == old(self)@ + concat(chunks@),
    {
        let ghost all = chunks@;
        proof {
            lemma_concat_empty();
            assert(all.take(0) =~= Seq::<Bytes>::empty());
        }
        for chunk in it: chunks
            invariant
                it.seq() == all,
                fits(old(self)@.len(), concat(all).len()),
                self@ == old(self)@ + concat(all.take(it.index())),
        {
            proof {
                lemma_concat_prefix(all, it.index());
            }
            put_chunk(&mut self.buffer, chunk);
        }
        assert(all.take(all.len() as int) =~= all);
    }

    /// Appends the bytes of every chunk as [`extend`](BytesCollect::extend)
    /// does, if a buffer can hold them together with the bytes already held.
    /// If it cannot, nothing is appended and the chunks come back.
    pub fn try_extend(&mut self, chunks: Vec<Bytes>) -> (res: Result<(), Vec<Bytes>>)
        ensures
            res is Ok <==> fits(old(self)@.len(), concat(chunks@).len()),
            res is Ok ==> final(self)@ == old(self)@ + concat(chunks@),
            res matches Err(back) ==> final(self)@ == old(self)@ && back@ == chunks@,
    {
        let held: usize = self.buffer.len();
        let limit: usize = isize::MAX as usize;
        if held > limit {
            return Err(chunks);
        }
        let room: usize = limit - held;
        let mut total: usize = 0;
        let mut i: usize = 0;
        proof {
            lemma_concat_empty();
            assert(chunks@.take(0) =~= Seq::<Bytes>::empty());
        }
        while i < chunks.len()
            invariant
                i <= chunks.len(),
                self@ == old(self)@,
                room == isize::MAX - old(self)@.len(),
                total == concat(chunks@.take(i as int)).len(),
                total <= room,
            decreases chunks.len() - i,
        {
            let size: usize = chunks[i].len();
            proof {
                lemma_concat_prefix(chunks@, i as int);
            }
            if size > room - total {
                return Err(chunks);
            }
            total = total + size;
            i = i + 1;
        }
        assert(chunks@.take(chunks@.len() as int) =~= chunks@);
        self.extend(chunks);
        Ok(())
    }
}

impl From<BytesCollect> for Bytes {
    /// Hands out the bytes gathered so far as one immutable buffer.
    fn from(collect: BytesCollect) -> (bytes: Bytes)
        ensures
            bytes_view(bytes) == collect@,
    {
        collect.buffer.freeze()
    }
}

/// The conversion is specified by the bytes of its result, on `from` itself.
/// Two buffers with the same bytes need not be the same buffer, so there is
/// no one value that the result could be said to equal.
impl vstd::std_specs::convert::FromSpecImpl<BytesCollect> for Bytes {
    open spec fn obeys_from_spec() -> bool {
        false
    }

    open spec fn from_spec(collect: BytesCollect) -> Bytes {
        arbitrary()
    }
}

} // verus!
