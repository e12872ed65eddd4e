//! The byte buffer that the codec reads from and writes to.

use bytes::BytesMut;
use vstd::prelude::*;

verus! {

/// `bytes::BytesMut`, a growable run of bytes. What it holds is spoken of
/// through [`bytes_of`] alone.
#[verifier::external_type_specification]
#[verifier::external_body]
pub struct ExBytesMut(BytesMut);

/// The bytes that a buffer currently holds, in order.
pub uninterp spec fn bytes_of(buf: BytesMut) -> Seq<u8>;

/// `BytesMut::len`: the number of bytes held.
pub assume_specification[ BytesMut::len ](buf: &BytesMut) -> (n: usize)
    ensures
        n == bytes_of(*buf).len(),
;

/// `BytesMut::split_to`: the first `at` bytes are handed out, the
/// rest stay; panics when `at` exceeds the length.
pub assume_specification[ BytesMut::split_to ](buf: &mut BytesMut, at: usize) -> (head: BytesMut)
    requires
        at <= bytes_of(*old(buf)).len(),
    ensures
        bytes_of(head) == bytes_of(*old(buf)).subrange(0, at as int),
        bytes_of(*final(buf)) == bytes_of(*old(buf)).subrange(
            at as int,
            bytes_of(*old(buf)).len() as int,
        ),
;

/// `BytesMut::as_ref`: the bytes held, as a slice.
pub assume_specification[ <BytesMut as AsRef<[u8]>>::as_ref ](buf: &BytesMut) -> (s: &[u8])
    ensures
        s@ == bytes_of(*buf),
;

/// `BytesMut::extend` with a slice of bytes: the bytes are added at the end,
/// after room for them has been reserved. Reserving panics when the new
/// length would pass what an allocation can hold.
#[verifier::external_body]
pub(crate) fn append(buf: &mut BytesMut, bytes: &[u8])
    requires
        bytes_of(*old(buf)).len() + bytes@.len() <= isize::MAX,
    ensures
        bytes_of(*final(buf)) == bytes_of(*old(buf)) + bytes@,
{
    buf.extend(bytes)
}

} // verus!
