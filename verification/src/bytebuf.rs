//! Trusted interface to the `bytes` crate: the growable receive buffer
//! (`BytesMut`) that a session accumulates stream bytes in, and the frozen
//! (`Bytes`) payload that an extracted frame owns.
//!
//! Each wrapper's contract states, over the two content views, what the
//! named method of the `bytes` crate does; nothing else here is trusted.

use vstd::prelude::*;

verus! {

/// The bytes a `BytesMut` buffer currently holds, front to back.
pub uninterp spec fn buf_contents(b: bytes::BytesMut) -> Seq<u8>;

/// The bytes a frozen `Bytes` value holds, front to back.
pub uninterp spec fn bytes_contents(b: bytes::Bytes) -> Seq<u8>;

#[verifier::external_type_specification]
#[verifier::external_body]
pub struct ExBytesMut(bytes::BytesMut);

#[verifier::external_type_specification]
#[verifier::external_body]
pub struct ExBytes(bytes::Bytes);

/// Relies on `<bytes::Bytes as Clone>::clone`: another handle to the same
/// bytes.
pub assume_specification[ <bytes::Bytes as Clone>::clone ](b: &bytes::Bytes) -> (r: bytes::Bytes)
    ensures
        bytes_contents(r) == bytes_contents(*b),
;

/// Relies on `bytes::BytesMut::with_capacity`: returns an empty buffer.
#[verifier::external_body]
pub fn buf_with_capacity(capacity: usize) -> (r: bytes::BytesMut)
    ensures
        buf_contents(r) == Seq::<u8>::empty(),
{
    bytes::BytesMut::with_capacity(capacity)
}

/// Relies on `bytes::BytesMut::len`: the number of bytes the buffer holds.
#[verifier::external_body]
pub fn buf_len(b: &bytes::BytesMut) -> (r: usize)
    ensures
        r == buf_contents(*b).len(),
{
    b.len()
}

/// Relies on `BytesMut`'s `Deref` to `[u8]`: the byte at index `i`.
#[verifier::external_body]
pub fn buf_byte(b: &bytes::BytesMut, i: usize) -> (r: u8)
    requires
        i < buf_contents(*b).len(),
    ensures
        r == buf_contents(*b)[i as int],
{
    b[i]
}

/// Relies on `<bytes::BytesMut as bytes::Buf>::advance`: discards the first
/// `n` bytes (it panics past the end, so `n` is bounded here).
#[verifier::external_body]
pub fn buf_advance(b: &mut bytes::BytesMut, n: usize)
    requires
        n <= buf_contents(*old(b)).len(),
    ensures
        buf_contents(*final(b)) == buf_contents(*old(b)).skip(n as int),
{
    bytes::Buf::advance(b, n)
}

/// Relies on `bytes::BytesMut::split_to`: removes and returns the first `n`
/// bytes, leaving the rest (it panics past the end, so `n` is bounded here).
#[verifier::external_body]
pub fn buf_split_to(b: &mut bytes::BytesMut, n: usize) -> (r: bytes::BytesMut)
    requires
        n <= buf_contents(*old(b)).len(),
    ensures
        buf_contents(r) == buf_contents(*old(b)).take(n as int),
        buf_contents(*final(b)) == buf_contents(*old(b)).skip(n as int),
{
    b.split_to(n)
}

/// Relies on `bytes::BytesMut::freeze`: the same bytes, now immutable.
#[verifier::external_body]
pub fn buf_freeze(b: bytes::BytesMut) -> (r: bytes::Bytes)
    ensures
        bytes_contents(r) == buf_contents(b),
{
    b.freeze()
}

/// Relies on `<bytes::BytesMut as bytes::BufMut>::put_u8`: appends one byte.
#[verifier::external_body]
pub fn buf_put_u8(b: &mut bytes::BytesMut, v: u8)
    ensures
        buf_contents(*final(b)) == buf_contents(*old(b)).push(v),
{
    bytes::BufMut::put_u8(b, v)
}

/// Relies on `bytes::BytesMut::extend_from_slice`: appends the slice's bytes.
#[verifier::external_body]
pub fn buf_extend(b: &mut bytes::BytesMut, data: &Vec<u8>)
    ensures
        buf_contents(*final(b)) == buf_contents(*old(b)) + data@,
{
    b.extend_from_slice(data.as_slice())
}

/// Relies on `bytes::Bytes::len`: the number of bytes the value holds.
#[verifier::external_body]
pub fn bytes_len(b: &bytes::Bytes) -> (r: usize)
    ensures
        r == bytes_contents(*b).len(),
{
    b.len()
}

/// Relies on `Bytes`'s `Deref` to `[u8]`: the byte at index `i`.
#[verifier::external_body]
pub fn bytes_byte(b: &bytes::Bytes, i: usize) -> (r: u8)
    requires
        i < bytes_contents(*b).len(),
    ensures
        r == bytes_contents(*b)[i as int],
{
    b[i]
}

/// Relies on `bytes::Bytes::split_to`: removes and returns the first `n`
/// bytes, leaving the rest (it panics past the end, so `n` is bounded here).
#[verifier::external_body]
pub fn bytes_split_to(b: &mut bytes::Bytes, n: usize) -> (r: bytes::Bytes)
    requires
        n <= bytes_contents(*old(b)).len(),
    ensures
        bytes_contents(r) == bytes_contents(*old(b)).take(n as int),
        bytes_contents(*final(b)) == bytes_contents(*old(b)).skip(n as int),
{
    b.split_to(n)
}

} // verus!
