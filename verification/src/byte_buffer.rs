//! The growing byte buffer of the crate `bytes`.

use bytes::{BufMut, BytesMut};
use vstd::prelude::*;

verus! {

/// The type `BytesMut`, of which only what its methods do is known here.
#[verifier::external_type_specification]
#[verifier::external_body]
pub struct ExBytesMut(bytes::BytesMut);

/// The bytes that a buffer holds, the first to leave in front.
pub uninterp spec fn buffered(b: BytesMut) -> Seq<u8>;

/// `BytesMut::with_capacity`: a buffer that holds nothing. The call panics where the capacity
/// cannot be allocated.
#[verifier::external_body]
pub(crate) fn buffer_with_capacity(capacity: usize) -> (b: BytesMut)
    requires
        capacity <= isize::MAX,
    ensures
        buffered(b) == Seq::<u8>::empty(),
{
    BytesMut::with_capacity(capacity)
}

/// `BytesMut::len`: how many bytes the buffer holds.
#[verifier::external_body]
pub(crate) fn buffer_len(b: &BytesMut) -> (n: usize)
    ensures
        n == buffered(*b).len(),
{
    b.len()
}

/// `BytesMut::split_to`: takes the first `at` bytes out of the buffer and hands them out, here
/// as a vector; the rest stays. The call panics where the buffer holds fewer.
#[verifier::external_body]
pub(crate) fn buffer_split_to(b: &mut BytesMut, at: usize) -> (out: Vec<u8>)
    requires
        at <= buffered(*old(b)).len(),
    ensures
        out@ == buffered(*old(b)).take(at as int),
        buffered(*final(b)) == buffered(*old(b)).skip(at as int),
{
    b.split_to(at).to_vec()
}

/// `BufMut::put_slice` of a `BytesMut`: appends the bytes. The call panics where what the buffer
/// then holds cannot be allocated.
#[verifier::external_body]
pub(crate) fn buffer_put_slice(b: &mut BytesMut, src: &[u8])
    requires
        buffered(*old(b)).len() + src@.len() <= isize::MAX,
    ensures
        buffered(*final(b)) == buffered(*old(b)) + src@,
{
    b.put_slice(src)
}

} // verus!
