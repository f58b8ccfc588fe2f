//! Immutable byte buffers of the `bytes` crate.
use vstd::prelude::*;

verus! {

/// `bytes::Bytes`, a cheaply cloneable and sliceable chunk of contiguous memory.
#[verifier::external_type_specification]
#[verifier::external_body]
pub struct ExBytes(bytes::Bytes);

/// The bytes that a `Bytes` buffer holds.
pub uninterp spec fn bytes_contents(b: bytes::Bytes) -> Seq<u8>;

/// Calls `bytes::Bytes::copy_from_slice`: a new buffer holding a copy of `data`.
#[verifier::external_body]
pub(crate) fn bytes_copy_from_slice(data: &[u8]) -> (r: bytes::Bytes)
    ensures
        bytes_contents(r) == data@,
{
    bytes::Bytes::copy_from_slice(data)
}

/// Calls `<bytes::Bytes as From<Vec<u8>>>::from`: a buffer holding the bytes of `v`.
#[verifier::external_body]
pub(crate) fn bytes_from_vec(v: Vec<u8>) -> (r: bytes::Bytes)
    ensures
        bytes_contents(r) == v@,
{
    bytes::Bytes::from(v)
}

/// Calls `bytes::Bytes::new`: an empty buffer.
#[verifier::external_body]
pub(crate) fn bytes_empty() -> (r: bytes::Bytes)
    ensures
        bytes_contents(r) == Seq::<u8>::empty(),
{
    bytes::Bytes::new()
}

} // verus!
