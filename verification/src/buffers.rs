//! Byte buffers of the `bytes` crate, as the codecs of this library use them.
//!
//! `BytesMut` and `Bytes` are opaque to Verus; what they hold is named by
//! `bytes_mut_contents` and `bytes_contents`, and each method the library calls
//! has a wrapper whose contract states its effect on those contents.
use bytes::{Buf, BufMut, Bytes, BytesMut};
use vstd::prelude::*;

verus! {

#[verifier::external_type_specification]
#[verifier::external_body]
pub struct ExBytesMut(BytesMut);

#[verifier::external_type_specification]
#[verifier::external_body]
pub struct ExBytes(Bytes);

/// The bytes that a `BytesMut` holds, in order.
pub uninterp spec fn bytes_mut_contents(b: BytesMut) -> Seq<u8>;

/// The bytes that a `Bytes` holds, in order.
pub uninterp spec fn bytes_contents(b: Bytes) -> Seq<u8>;

/// `BytesMut::new`: an empty buffer.
#[verifier::external_body]
pub(crate) fn bytes_mut_new() -> (b: BytesMut)
    ensures
        bytes_mut_contents(b) == Seq::<u8>::empty(),
{
    BytesMut::new()
}

/// `BufMut::put_slice` on a `BytesMut`: appends `src`. The buffer grows through
/// `Vec::reserve`, which panics past `isize::MAX` bytes; `requires` leaves that out.
#[verifier::external_body]
pub(crate) fn put_slice(b: &mut BytesMut, src: &[u8])
    requires
        bytes_mut_contents(*old(b)).len() + src@.len() <= isize::MAX,
    ensures
        bytes_mut_contents(*final(b)) == bytes_mut_contents(*old(b)) + src@,
{
    b.put_slice(src)
}

/// `BufMut::put_u8` on a `BytesMut`: appends one byte (through `put_slice`).
#[verifier::external_body]
pub(crate) fn put_u8(b: &mut BytesMut, n: u8)
    requires
        bytes_mut_contents(*old(b)).len() + 1 <= isize::MAX,
    ensures
        bytes_mut_contents(*final(b)) == bytes_mut_contents(*old(b)).push(n),
{
    b.put_u8(n)
}

/// `BytesMut::len`: the number of bytes held.
#[verifier::external_body]
pub(crate) fn bytes_mut_len(b: &BytesMut) -> (n: usize)
    ensures
        n == bytes_mut_contents(*b).len(),
{
    b.len()
}

/// `Deref` of `BytesMut`: the held bytes as a slice.
#[verifier::external_body]
pub(crate) fn bytes_mut_slice(b: &BytesMut) -> (s: &[u8])
    ensures
        s@ == bytes_mut_contents(*b),
{
    b
}

/// `BytesMut::freeze`: the same bytes as an immutable `Bytes`.
#[verifier::external_body]
pub(crate) fn freeze(b: BytesMut) -> (r: Bytes)
    ensures
        bytes_contents(r) == bytes_mut_contents(b),
{
    b.freeze()
}

/// `From<Vec<u8>> for Bytes`: the same bytes.
#[verifier::external_body]
pub(crate) fn bytes_from_vec(v: Vec<u8>) -> (r: Bytes)
    ensures
        bytes_contents(r) == v@,
{
    Bytes::from(v)
}

/// `Bytes::len`: the number of bytes held.
#[verifier::external_body]
pub(crate) fn bytes_len(b: &Bytes) -> (n: usize)
    ensures
        n == bytes_contents(*b).len(),
{
    b.len()
}

/// `Bytes::is_empty`: whether no byte is held.
#[verifier::external_body]
pub(crate) fn bytes_is_empty(b: &Bytes) -> (e: bool)
    ensures
        e == (bytes_contents(*b).len() == 0),
{
    b.is_empty()
}

/// `Deref` of `Bytes`: the held bytes as a slice.
#[verifier::external_body]
pub(crate) fn bytes_slice(b: &Bytes) -> (s: &[u8])
    ensures
        s@ == bytes_contents(*b),
{
    b
}

/// `Bytes::split_to`: the first `at` bytes are returned and removed from `b`.
/// It panics when `at` exceeds the length; `requires` leaves that out.
#[verifier::external_body]
pub(crate) fn split_to(b: &mut Bytes, at: usize) -> (head: Bytes)
    requires
        at <= bytes_contents(*old(b)).len(),
    ensures
        bytes_contents(head) == bytes_contents(*old(b)).take(at as int),
        bytes_contents(*final(b)) == bytes_contents(*old(b)).skip(at as int),
{
    b.split_to(at)
}

/// `Bytes::split_off`: the bytes from `at` on are returned; `b` keeps the first `at`.
/// It panics when `at` exceeds the length; `requires` leaves that out.
#[verifier::external_body]
pub(crate) fn split_off(b: &mut Bytes, at: usize) -> (tail: Bytes)
    requires
        at <= bytes_contents(*old(b)).len(),
    ensures
        bytes_contents(tail) == bytes_contents(*old(b)).skip(at as int),
        bytes_contents(*final(b)) == bytes_contents(*old(b)).take(at as int),
{
    b.split_off(at)
}

/// `Buf::advance` on `Bytes`: drops the first `cnt` bytes.
/// It panics when `cnt` exceeds the length; `requires` leaves that out.
#[verifier::external_body]
pub(crate) fn advance(b: &mut Bytes, cnt: usize)
    requires
        cnt <= bytes_contents(*old(b)).len(),
    ensures
        bytes_contents(*final(b)) == bytes_contents(*old(b)).skip(cnt as int),
{
    b.advance(cnt)
}

/// An empty buffer for the library's writers: what they require of a buffer
/// is stated over its contents, which start empty here.
pub fn empty_buffer() -> (b: BytesMut)
    ensures
        bytes_mut_contents(b) == Seq::<u8>::empty(),
{
    bytes_mut_new()
}

/// The bytes a buffer holds, as the library's writers state them.
pub fn buffer_contents(b: &BytesMut) -> (s: &[u8])
    ensures
        s@ == bytes_mut_contents(*b),
{
    bytes_mut_slice(b)
}

} // verus!
