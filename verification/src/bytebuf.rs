//! The byte buffers that requests and responses carry are `bytes::Bytes`
//! values. The buffer type is opaque here: the trusted items below declare
//! it, name the byte sequence it holds, and give the few operations the
//! codec needs their contracts.

use vstd::prelude::*;

verus! {

#[verifier::external_type_specification]
#[verifier::external_body]
pub struct ExBytes(bytes::Bytes);

/// The bytes that a `bytes::Bytes` buffer holds.
pub uninterp spec fn bytes_content(b: bytes::Bytes) -> Seq<u8>;

/// Relies on `bytes::Bytes::new`: the new buffer is empty.
#[verifier::external_body]
pub(crate) fn bytes_new() -> (b: bytes::Bytes)
    ensures
        bytes_content(b) == Seq::<u8>::empty(),
{
    bytes::Bytes::new()
}

/// Relies on `impl From<Vec<u8>> for bytes::Bytes`: the buffer holds
/// exactly the vector's bytes.
#[verifier::external_body]
pub(crate) fn bytes_from_vec(v: Vec<u8>) -> (b: bytes::Bytes)
    ensures
        bytes_content(b) == v@,
{
    bytes::Bytes::from(v)
}

/// Relies on `bytes::Bytes::len`: the number of bytes held.
#[verifier::external_body]
pub(crate) fn bytes_len(b: &bytes::Bytes) -> (n: usize)
    ensures
        n == bytes_content(*b).len(),
{
    b.len()
}

/// Relies on `impl AsRef<[u8]> for bytes::Bytes`: a slice of exactly the
/// bytes held.
#[verifier::external_body]
pub(crate) fn bytes_as_slice(b: &bytes::Bytes) -> (s: &[u8])
    ensures
        s@ == bytes_content(*b),
{
    b.as_ref()
}

} // verus!
