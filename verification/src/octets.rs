//! Byte strings of the `bytes` crate, seen as sequences of bytes.
use bytes::{Buf, Bytes, BytesMut};
use vstd::prelude::*;

verus! {

#[verifier::external_type_specification]
#[verifier::external_body]
pub struct ExBytes(bytes::Bytes);

#[verifier::external_type_specification]
#[verifier::external_body]
pub struct ExBytesMut(bytes::BytesMut);

/// The bytes that a `Bytes` handle shows.
pub uninterp spec fn content(b: Bytes) -> Seq<u8>;

/// The bytes that are waiting in a `BytesMut`.
pub uninterp spec fn buffered(b: BytesMut) -> Seq<u8>;

/// `Bytes::copy_from_slice`: a fresh handle on a copy of `data`.
pub assume_specification[ bytes::Bytes::copy_from_slice ](data: &[u8]) -> (r: Bytes)
    ensures
        content(r) == data@,
;

/// `Bytes::clone`: one more handle on the same bytes.
pub assume_specification[ <bytes::Bytes as Clone>::clone ](b: &Bytes) -> (r: Bytes)
    ensures
        content(r) == content(*b),
;

/// `Bytes::as_ref`: the bytes themselves, as a slice.
pub assume_specification[ <bytes::Bytes as AsRef<[u8]>>::as_ref ](b: &Bytes) -> (r: &[u8])
    ensures
        r@ == content(*b),
;

/// `Bytes::slice` with a half-open range: a handle on the bytes from `start` up to `end`. The
/// method panics where `start > end` or `end` lies past the last byte.
#[verifier::external_body]
pub(crate) fn slice_bytes(b: &Bytes, start: usize, end: usize) -> (r: Bytes)
    requires
        start <= end <= content(*b).len(),
    ensures
        content(r) == content(*b).subrange(start as int, end as int),
{
    b.slice(start..end)
}

/// `From<Vec<u8>> for Bytes`: a handle on the bytes of `v`.
#[verifier::external_body]
pub(crate) fn bytes_from_vec(v: Vec<u8>) -> (r: Bytes)
    ensures
        content(r) == v@,
{
    Bytes::from(v)
}

/// A copy of the bytes in a vector.
pub(crate) fn octets_of(b: &Bytes) -> (r: Vec<u8>)
    ensures
        r@ == content(*b),
{
    let mut v: Vec<u8> = Vec::new();
    v.extend_from_slice(b.as_ref());
    assert(v@ =~= content(*b));
    v
}

/// `BytesMut::new`: a buffer with nothing in it.
pub assume_specification[ bytes::BytesMut::new ]() -> (r: BytesMut)
    ensures
        buffered(r) == Seq::<u8>::empty(),
;

/// `BytesMut::extend_from_slice`: puts bytes behind those that are waiting.
pub assume_specification[ bytes::BytesMut::extend_from_slice ](b: &mut BytesMut, extend: &[u8])
    ensures
        buffered(*final(b)) == buffered(*old(b)) + extend@,
;

/// `BytesMut::as_ref`: the waiting bytes, as a slice.
pub assume_specification[ <bytes::BytesMut as AsRef<[u8]>>::as_ref ](b: &BytesMut) -> (r: &[u8])
    ensures
        r@ == buffered(*b),
;

/// `BytesMut::split_to`: takes the first `at` bytes out of the buffer. The method panics where
/// `at` exceeds the number of bytes in it.
pub assume_specification[ bytes::BytesMut::split_to ](b: &mut BytesMut, at: usize) -> (r: BytesMut)
    requires
        at <= buffered(*old(b)).len(),
    ensures
        buffered(r) == buffered(*old(b)).take(at as int),
        buffered(*final(b)) == buffered(*old(b)).skip(at as int),
;

/// `BytesMut::freeze`: the same bytes, no longer growable.
pub assume_specification[ bytes::BytesMut::freeze ](b: BytesMut) -> (r: Bytes)
    ensures
        content(r) == buffered(b),
;

/// `Buf::advance` on a `BytesMut`: drops the first `n` bytes. The method panics where `n`
/// exceeds the number of bytes in the buffer.
#[verifier::external_body]
pub(crate) fn advance(b: &mut BytesMut, n: usize)
    requires
        n <= buffered(*old(b)).len(),
    ensures
        buffered(*final(b)) == buffered(*old(b)).skip(n as int),
{
    b.advance(n)
}

} // verus!
