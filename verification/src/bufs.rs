//! Byte buffers of the `bytes` crate, as packet fragments hold them.

use vstd::prelude::*;
use bytes::BytesMut;

verus! {

/// `bytes::BytesMut`, carried through verified code as an opaque value.
#[verifier::external_type_specification]
#[verifier::external_body]
pub struct ExBytesMut(BytesMut);

/// The bytes a `BytesMut` holds (its initialised part, as `Deref` shows it).
pub uninterp spec fn bytes_mut_contents(b: BytesMut) -> Seq<u8>;

/// `BytesMut::from(&[u8])`: a buffer holding a copy of `s`.
#[verifier::external_body]
pub(crate) fn bytes_mut_from_slice(s: &[u8]) -> (b: BytesMut)
    ensures
        bytes_mut_contents(b) == s@,
{
    BytesMut::from(s)
}

/// `BytesMut::with_capacity`: an empty buffer that can grow to `capacity`
/// bytes without reallocating.
#[verifier::external_body]
pub(crate) fn bytes_mut_with_capacity(capacity: usize) -> (b: BytesMut)
    ensures
        bytes_mut_contents(b) == Seq::<u8>::empty(),
{
    BytesMut::with_capacity(capacity)
}

/// `<BytesMut as Deref>::deref`: the bytes held, as a slice.
#[verifier::external_body]
pub(crate) fn bytes_mut_as_slice(b: &BytesMut) -> (s: &[u8])
    ensures
        s@ == bytes_mut_contents(*b),
{
    &b[..]
}

} // verus!
