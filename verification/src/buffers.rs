//! The byte buffers that messages travel in.

use bytes::{Bytes, BytesMut};
use vstd::prelude::*;

verus! {

/// The shared, immutable buffer of the `bytes` crate.
#[verifier::external_type_specification]
#[verifier::external_body]
pub struct ExBytes(bytes::Bytes);

/// The growable buffer of the `bytes` crate, owned by one holder.
#[verifier::external_type_specification]
#[verifier::external_body]
pub struct ExBytesMut(bytes::BytesMut);

/// The bytes that a shared buffer holds.
pub uninterp spec fn bytes_contents(buffer: Bytes) -> Seq<u8>;

/// The bytes that a growable buffer holds.
pub uninterp spec fn bytes_mut_contents(buffer: BytesMut) -> Seq<u8>;

/// Calls `Bytes::from` for a vector: the buffer takes the vector over and holds
/// its bytes.
#[verifier::external_body]
pub(crate) fn bytes_from_vec(data: Vec<u8>) -> (r: Bytes)
    ensures
        bytes_contents(r) == data@,
{
    Bytes::from(data)
}

/// Borrows a shared buffer as a slice, by `Deref` of `Bytes`: the slice is what
/// the buffer holds.
#[verifier::external_body]
pub(crate) fn bytes_as_slice(buffer: &Bytes) -> (r: &[u8])
    ensures
        r@ == bytes_contents(*buffer),
{
    &buffer[..]
}

/// Calls `BytesMut::from` for a slice: the buffer holds a copy of its bytes.
#[verifier::external_body]
pub(crate) fn bytes_mut_from_slice(data: &[u8]) -> (r: BytesMut)
    ensures
        bytes_mut_contents(r) == data@,
{
    BytesMut::from(data)
}

/// Borrows a growable buffer as a slice, by `Deref` of `BytesMut`: the slice is
/// what the buffer holds.
#[verifier::external_body]
pub(crate) fn bytes_mut_as_slice(buffer: &BytesMut) -> (r: &[u8])
    ensures
        r@ == bytes_mut_contents(*buffer),
{
    &buffer[..]
}

} // verus!
