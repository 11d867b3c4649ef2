//! The connection buffers' storage: `bytes::BytesMut`, held behind a small
//! trusted boundary.
//!
//! The contents of a buffer are named by [`bytes_view`], the bytes it
//! currently holds front first; every wrapper states its effect over that
//! view, as the crate's source shows it.
use vstd::prelude::*;

verus! {

#[verifier::external_type_specification]
#[verifier::external_body]
pub struct ExBytesMut(bytes::BytesMut);

/// The bytes a buffer currently holds, front first.
pub uninterp spec fn bytes_view(b: bytes::BytesMut) -> Seq<u8>;

/// Relies on `bytes::BytesMut::with_capacity`: the new buffer holds no bytes.
#[verifier::external_body]
pub(crate) fn buf_with_capacity(cap: usize) -> (b: bytes::BytesMut)
    ensures
        bytes_view(b) == Seq::<u8>::empty(),
{
    bytes::BytesMut::with_capacity(cap)
}

/// Relies on `bytes::BytesMut::len`: the number of bytes held.
#[verifier::external_body]
pub(crate) fn buf_len(b: &bytes::BytesMut) -> (n: usize)
    ensures
        n == bytes_view(*b).len(),
{
    b.len()
}

/// Relies on `AsRef<[u8]>` for `bytes::BytesMut`: a view of all bytes held,
/// front first, copied out.
#[verifier::external_body]
pub(crate) fn buf_to_vec(b: &bytes::BytesMut) -> (v: Vec<u8>)
    ensures
        v@ == bytes_view(*b),
{
    b.as_ref().to_vec()
}

/// Relies on `bytes::BytesMut::extend_from_slice`: appends the slice at the
/// back, reserving more space as needed.
#[verifier::external_body]
pub(crate) fn buf_extend(b: &mut bytes::BytesMut, s: &[u8])
    ensures
        bytes_view(*final(b)) == bytes_view(*old(b)) + s@,
{
    b.extend_from_slice(s);
}

/// Relies on `bytes::Buf::advance` for `BytesMut`: discards the first `n`
/// bytes; it panics if `n` exceeds the bytes held, so that is required away.
#[verifier::external_body]
pub(crate) fn buf_advance(b: &mut bytes::BytesMut, n: usize)
    requires
        n <= bytes_view(*old(b)).len(),
    ensures
        bytes_view(*final(b)) == bytes_view(*old(b)).skip(n as int),
{
    bytes::Buf::advance(b, n);
}

} // verus!
