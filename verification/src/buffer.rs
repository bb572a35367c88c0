//! The boundary to the `bytes` crate.
//!
//! Everything in this module is believed, not proved: the declarations of the
//! two buffer types, the names for what they hold, and the contracts of the
//! calls that the accumulator makes on them.

use bytes::{BufMut, Bytes, BytesMut};
use vstd::prelude::*;

verus! {

/// `bytes::Bytes`: an immutable, cheaply clonable run of bytes.
#[verifier::external_type_specification]
#[verifier::external_body]
pub struct ExBytes(bytes::Bytes);

/// `bytes::BytesMut`: a growable run of bytes with a single owner.
#[verifier::external_type_specification]
#[verifier::external_body]
pub struct ExBytesMut(bytes::BytesMut);

/// The bytes that a `Bytes` dereferences to, in order.
pub uninterp spec fn bytes_view(b: Bytes) -> Seq<u8>;

/// The bytes that a `BytesMut` dereferences to, in order.
pub uninterp spec fn bytes_mut_view(b: BytesMut) -> Seq<u8>;

/// `Default::default` of `BytesMut`, which is `BytesMut::new`: the buffer it
/// returns has length zero.
pub assume_specification[ <BytesMut as Default>::default ]() -> (buf: BytesMut)
    ensures
        bytes_mut_view(buf) == Seq::<u8>::empty(),
;

/// `BytesMut::freeze`: the immutable buffer it returns holds exactly the
/// bytes that the mutable one held.
pub assume_specification[ BytesMut::freeze ](buf: BytesMut) -> (bytes: Bytes)
    ensures
        bytes_view(bytes) == bytes_mut_view(buf),
;

/// `BytesMut::len`: the number of bytes held.
pub assume_specification[ BytesMut::len ](buf: &BytesMut) -> (n: usize)
    ensures
        n == bytes_mut_view(*buf).len(),
;

/// `Bytes::len`: the number of bytes held.
pub assume_specification[ Bytes::len ](bytes: &Bytes) -> (n: usize)
    ensures
        n == bytes_view(*bytes).len(),
;

/// `BufMut::put` on a `BytesMut`, with a `Bytes` as the source: every byte of
/// the source is appended behind the bytes already held, growing the buffer
/// as needed.
///
/// `put` is documented to panic when the source holds more bytes than
/// `remaining_mut()` reports, which for `BytesMut` is `isize::MAX` less its
/// length; the precondition leaves those calls out. Growth that the
/// allocator cannot serve ends the call abnormally, as any failed
/// allocation does, and is not part of this contract.
#[verifier::external_body]
pub(crate) fn put_chunk(buf: &mut BytesMut, chunk: Bytes)
    requires
        bytes_mut_view(*old(buf)).len() + bytes_view(chunk).len() <= isize::MAX,
    ensures
        bytes_mut_view(*final(buf)) == bytes_mut_view(*old(buf)) + bytes_view(chunk),
{
    buf.put(chunk);
}

} // verus!
