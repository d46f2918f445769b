//! Byte strings that can be shared.

use bytes::Bytes;
use vstd::prelude::*;

verus! {

/// A byte string of the bytes crate.
#[verifier::external_type_specification]
#[verifier::external_body]
pub struct ExBytes(bytes::Bytes);

/// The bytes in a byte string.
pub uninterp spec fn bytes_content(bytes: Bytes) -> Seq<u8>;

/// Calls `bytes::Bytes::copy_from_slice`, which makes a byte string of a copy of the slice.
#[verifier::external_body]
pub(crate) fn bytes_copy_from_slice(data: &[u8]) -> (r: Bytes)
    ensures
        bytes_content(r) == data@,
{
    Bytes::copy_from_slice(data)
}

/// Calls `bytes::Bytes::as_ref`, which gives the bytes as a slice.
#[verifier::external_body]
pub(crate) fn bytes_as_slice(bytes: &Bytes) -> (r: &[u8])
    ensures
        r@ == bytes_content(*bytes),
{
    bytes.as_ref()
}

} // verus!
