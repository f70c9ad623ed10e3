//! `bytes::Bytes`, the cheaply cloneable byte buffer that frames carry.

use vstd::prelude::*;
use bytes::Bytes;

verus! {

/// `bytes::Bytes`, carried through opaquely.
#[verifier::external_type_specification]
#[verifier::external_body]
pub struct ExBytes(Bytes);

/// The bytes a `Bytes` buffer holds.
pub uninterp spec fn bytes_view(b: Bytes) -> Seq<u8>;

/// `Bytes::from(Vec<u8>)`: a buffer holding the vector's bytes.
#[verifier::external_body]
pub(crate) fn bytes_from_vec(v: Vec<u8>) -> (b: Bytes)
    ensures
        bytes_view(b) == v@,
{
    Bytes::from(v)
}

/// `Bytes::len`: the number of bytes held.
#[verifier::external_body]
pub(crate) fn bytes_len(b: &Bytes) -> (n: usize)
    ensures
        n == bytes_view(*b).len(),
{
    b.len()
}

/// `Bytes::is_empty`: whether no byte is held.
#[verifier::external_body]
pub(crate) fn bytes_is_empty(b: &Bytes) -> (e: bool)
    ensures
        e == (bytes_view(*b).len() == 0),
{
    b.is_empty()
}

/// `Bytes::slice(begin..end)`: a buffer sharing the bytes `begin..end`
/// (the crate panics unless `begin <= end <= len`).
#[verifier::external_body]
pub(crate) fn bytes_slice(b: &Bytes, begin: usize, end: usize) -> (s: Bytes)
    requires
        begin <= end <= bytes_view(*b).len(),
    ensures
        bytes_view(s) == bytes_view(*b).subrange(begin as int, end as int),
{
    b.slice(begin..end)
}

/// `Bytes::clone`: another handle on the same bytes.
#[verifier::external_body]
pub(crate) fn bytes_clone(b: &Bytes) -> (c: Bytes)
    ensures
        bytes_view(c) == bytes_view(*b),
{
    b.clone()
}

} // verus!
