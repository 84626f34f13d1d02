//! Shared immutable bytes.

use bytes::Bytes;
use vstd::prelude::*;

verus! {

/// An outside container of bytes, cheap to clone and to slice.
#[verifier::external_type_specification]
#[verifier::external_body]
pub struct ExBytes(bytes::Bytes);

/// The bytes of a container.
pub uninterp spec fn content(data: Bytes) -> Seq<u8>;

/// The bytes of a container, if there is one.
pub open spec fn optional(data: Option<Bytes>) -> Option<Seq<u8>> {
    match data {
        Some(data) => Some(content(data)),
        None => None,
    }
}

/// `Bytes::copy_from_slice`: a container with a copy of the bytes.
#[verifier::external_body]
pub(crate) fn copy_from_slice(data: &[u8]) -> (r: Bytes)
    ensures
        content(r) == data@,
{
    Bytes::copy_from_slice(data)
}

/// `Bytes::len`: the number of bytes.
#[verifier::external_body]
pub(crate) fn len(data: &Bytes) -> (r: usize)
    ensures
        r == content(*data).len(),
{
    data.len()
}

/// `Bytes::as_ref`: the bytes as a slice.
#[verifier::external_body]
pub(crate) fn as_slice(data: &Bytes) -> (r: &[u8])
    ensures
        r@ == content(*data),
{
    data.as_ref()
}

/// `Bytes::clone`: a container with the same bytes.
#[verifier::external_body]
pub(crate) fn clone(data: &Bytes) -> (r: Bytes)
    ensures
        content(r) == content(*data),
{
    data.clone()
}

} // verus!
