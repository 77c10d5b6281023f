//! Byte buffers.
//!
//! The broker keeps wire data in the reference-counted buffers of the `bytes`
//! crate: `Bytes` for finished, shareable data and `BytesMut` for data under
//! construction or being consumed. This module gives Verus the model of both
//! (the sequence of bytes a buffer holds) and the contracts of the operations
//! the broker uses. The contracts are taken as given; everything built on them
//! is proved.

use bytes::Bytes;
use bytes::BytesMut;
use vstd::prelude::*;

verus! {

/// `bytes::Bytes`: an immutable, cheaply cloneable byte buffer.
#[verifier::external_type_specification]
#[verifier::external_body]
pub struct ExBytes(Bytes);

/// `bytes::BytesMut`: a growable byte buffer that can be consumed from the front.
#[verifier::external_type_specification]
#[verifier::external_body]
pub struct ExBytesMut(BytesMut);

/// The bytes that a `Bytes` holds, in order.
pub uninterp spec fn contents(b: Bytes) -> Seq<u8>;

/// The bytes that a `BytesMut` holds, in order.
pub uninterp spec fn buffered(b: BytesMut) -> Seq<u8>;

/// The four bytes of `n`, most significant first.
pub open spec fn be_bytes(n: u32) -> Seq<u8> {
    seq![
        (n / 0x100_0000) as u8,
        ((n / 0x1_0000) % 0x100) as u8,
        ((n / 0x100) % 0x100) as u8,
        (n % 0x100) as u8,
    ]
}

/// `<Bytes as From<Vec<u8>>>::from`: takes over the vector's storage; the
/// buffer holds exactly the vector's bytes.
pub assume_specification[ <Bytes as From<Vec<u8>>>::from ](v: Vec<u8>) -> (b: Bytes)
    ensures
        contents(b) == v@,
;

/// `Bytes::len`: the number of bytes held.
pub assume_specification[ Bytes::len ](b: &Bytes) -> (n: usize)
    ensures
        n == contents(*b).len(),
;

/// `<Bytes as Deref>::deref`: the held bytes as a slice.
pub assume_specification<'a>[ <Bytes as core::ops::Deref>::deref ](b: &'a Bytes) -> (s: &'a [u8])
    ensures
        s@ == contents(*b),
;

/// `BytesMut::with_capacity`: a buffer that holds nothing yet, whatever the
/// capacity asked for.
pub assume_specification[ BytesMut::with_capacity ](capacity: usize) -> (b: BytesMut)
    ensures
        buffered(b) == Seq::<u8>::empty(),
;

/// `BytesMut::len`: the number of bytes held.
pub assume_specification[ BytesMut::len ](b: &BytesMut) -> (n: usize)
    ensures
        n == buffered(*b).len(),
;

/// `<BytesMut as Deref>::deref`: the held bytes as a slice.
pub assume_specification<'a>[ <BytesMut as core::ops::Deref>::deref ](b: &'a BytesMut) -> (s:
    &'a [u8])
    ensures
        s@ == buffered(*b),
;

/// `BytesMut::reserve`: makes room for `additional` more bytes and leaves the
/// contents alone. It panics when the capacity needed overflows, which the
/// bound on the new length rules out.
pub assume_specification[ BytesMut::reserve ](b: &mut BytesMut, additional: usize)
    requires
        buffered(*old(b)).len() + additional <= isize::MAX,
    ensures
        buffered(*final(b)) == buffered(*old(b)),
;

/// `BytesMut::extend_from_slice`: appends `extend` at the end, growing the
/// buffer as `reserve` does.
pub assume_specification[ BytesMut::extend_from_slice ](b: &mut BytesMut, extend: &[u8])
    requires
        buffered(*old(b)).len() + extend@.len() <= isize::MAX,
    ensures
        buffered(*final(b)) == buffered(*old(b)) + extend@,
;

/// `BufMut::put_u32` on a `BytesMut`: appends the four bytes of `n` in
/// big-endian order, growing the buffer as `reserve` does.
#[verifier::external_body]
pub(crate) fn put_u32(b: &mut BytesMut, n: u32)
    requires
        buffered(*old(b)).len() + 4 <= isize::MAX,
    ensures
        buffered(*final(b)) == buffered(*old(b)) + be_bytes(n),
{
    bytes::BufMut::put_u32(b, n)
}

/// `<BytesMut as Buf>::advance`: drops the first `cnt` bytes. It panics when
/// fewer than `cnt` bytes are held.
pub assume_specification[ <BytesMut as bytes::Buf>::advance ](b: &mut BytesMut, cnt: usize)
    requires
        cnt <= buffered(*old(b)).len(),
    ensures
        buffered(*final(b)) == buffered(*old(b)).skip(cnt as int),
;

/// `BytesMut::split_to`: cuts the buffer at `at`; the result holds the bytes
/// before `at` and the buffer keeps the rest. It panics when `at` is past the
/// end.
pub assume_specification[ BytesMut::split_to ](b: &mut BytesMut, at: usize) -> (head: BytesMut)
    requires
        at <= buffered(*old(b)).len(),
    ensures
        buffered(head) == buffered(*old(b)).take(at as int),
        buffered(*final(b)) == buffered(*old(b)).skip(at as int),
;

/// `BytesMut::freeze`: turns the buffer into an immutable one that holds the
/// same bytes.
pub assume_specification[ BytesMut::freeze ](b: BytesMut) -> (frozen: Bytes)
    ensures
        contents(frozen) == buffered(b),
;

} // verus!
