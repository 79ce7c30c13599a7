//! The byte buffers of the `bytes` crate, as verified code sees them.
//!
//! `Bytes` and `BytesMut` are opaque to the verifier. What a buffer holds is
//! named by [`bytes_contents`] and [`bytes_mut_contents`], and each function
//! of the `bytes` crate that the library calls gets a contract over those
//! names. None of these contracts is proved: each restates what the crate's
//! source does.

use bytes::{Buf, Bytes, BytesMut};
use vstd::prelude::*;

verus! {

/// `bytes::Bytes`: a shared, immutable run of bytes. Nothing inside it is
/// visible here.
#[verifier::external_type_specification]
#[verifier::external_body]
pub struct ExBytes(bytes::Bytes);

/// `bytes::BytesMut`: a growable buffer of bytes. Nothing inside it is
/// visible here.
#[verifier::external_type_specification]
#[verifier::external_body]
pub struct ExBytesMut(bytes::BytesMut);

/// The bytes that a `Bytes` handle gives access to, in order.
pub uninterp spec fn bytes_contents(b: Bytes) -> Seq<u8>;

/// The bytes that a `BytesMut` buffer holds, in order.
pub uninterp spec fn bytes_mut_contents(b: BytesMut) -> Seq<u8>;

/// `Bytes::copy_from_slice` copies the slice into a fresh buffer, so the
/// result holds exactly the bytes of `data`.
pub assume_specification[ Bytes::copy_from_slice ](data: &[u8]) -> (b: Bytes)
    ensures
        bytes_contents(b) == data@,
;

/// `Bytes::is_empty` tells whether the buffer holds no byte.
pub assume_specification[ Bytes::is_empty ](b: &Bytes) -> (empty: bool)
    ensures
        empty == (bytes_contents(*b).len() == 0),
;

/// Copies the bytes out of `b`: `Bytes` dereferences to the slice of its
/// contents, and `to_vec` copies that slice.
#[verifier::external_body]
pub(crate) fn bytes_to_vec(b: &Bytes) -> (v: Vec<u8>)
    ensures
        v@ == bytes_contents(*b),
{
    b.to_vec()
}

/// `BytesMut::with_capacity` returns a buffer that holds no data, whatever
/// capacity it was given.
pub assume_specification[ BytesMut::with_capacity ](capacity: usize) -> (b: BytesMut)
    ensures
        bytes_mut_contents(b) == Seq::<u8>::empty(),
;

/// `BytesMut::len` is the number of bytes held.
pub assume_specification[ BytesMut::len ](b: &BytesMut) -> (n: usize)
    ensures
        n == bytes_mut_contents(*b).len(),
;

/// `BytesMut::is_empty` tells whether the buffer holds no byte.
pub assume_specification[ BytesMut::is_empty ](b: &BytesMut) -> (empty: bool)
    ensures
        empty == (bytes_mut_contents(*b).len() == 0),
;

/// `BytesMut::extend_from_slice` appends the bytes of `extend` behind those
/// already held, resizing the buffer where needed. It panics where the new
/// length overflows `usize`, which the precondition rules out. As with
/// `Vec`, an allocation that the machine cannot make is outside what this
/// states.
pub assume_specification[ BytesMut::extend_from_slice ](b: &mut BytesMut, extend: &[u8])
    requires
        bytes_mut_contents(*old(b)).len() + extend@.len() <= usize::MAX,
    ensures
        bytes_mut_contents(*final(b)) == bytes_mut_contents(*old(b)) + extend@,
;

/// `BytesMut::split_to` hands out the first `at` bytes as a buffer of their
/// own and keeps the rest. It panics where `at` exceeds the length, which
/// the precondition rules out.
pub assume_specification[ BytesMut::split_to ](b: &mut BytesMut, at: usize) -> (head: BytesMut)
    requires
        at <= bytes_mut_contents(*old(b)).len(),
    ensures
        bytes_mut_contents(head) == bytes_mut_contents(*old(b)).subrange(0, at as int),
        bytes_mut_contents(*final(b)) == bytes_mut_contents(*old(b)).subrange(
            at as int,
            bytes_mut_contents(*old(b)).len() as int,
        ),
;

/// `Buf::advance` on a `BytesMut` drops the first `cnt` bytes. It panics
/// where `cnt` exceeds what remains, which the precondition rules out.
pub assume_specification[ <BytesMut as Buf>::advance ](b: &mut BytesMut, cnt: usize)
    requires
        cnt <= bytes_mut_contents(*old(b)).len(),
    ensures
        bytes_mut_contents(*final(b)) == bytes_mut_contents(*old(b)).subrange(
            cnt as int,
            bytes_mut_contents(*old(b)).len() as int,
        ),
;

/// `BytesMut::freeze` turns the buffer into an immutable `Bytes` over the
/// same bytes.
pub assume_specification[ BytesMut::freeze ](b: BytesMut) -> (frozen: Bytes)
    ensures
        bytes_contents(frozen) == bytes_mut_contents(b),
;

/// The bytes of a `BytesMut` as a slice: its `AsRef<[u8]>` borrows exactly
/// what the buffer holds.
#[verifier::external_body]
pub(crate) fn bytes_mut_as_slice(b: &BytesMut) -> (s: &[u8])
    ensures
        s@ == bytes_mut_contents(*b),
{
    b.as_ref()
}

} // verus!
