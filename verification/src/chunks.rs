//! Byte chunks as they travel through a stream: the reference-counted
//! `Bytes` and the growable `BytesMut` of the `bytes` crate, reached here
//! through `actix_web::web`.
//!
//! Neither type is verified. Each is declared opaque, its contents get a
//! name, and every operation used by this crate is given a contract over
//! those names. Nothing below is proved: the contracts restate what the
//! source of the `bytes` crate does.

use actix_web::web::{Bytes, BytesMut};
use vstd::prelude::*;

verus! {

/// `bytes::Bytes`, a cheaply cloned handle to a run of bytes that never
/// changes. Opaque: only [`chunk_bytes`] speaks of what is inside.
#[verifier::external_type_specification]
#[verifier::external_body]
pub struct ExBytes(Bytes);

/// `bytes::BytesMut`, a region of bytes that grows at its end. Opaque: only
/// [`region_bytes`] speaks of what is inside.
#[verifier::external_type_specification]
#[verifier::external_body]
pub struct ExBytesMut(BytesMut);

/// The bytes that a `Bytes` handle gives access to, in order.
pub uninterp spec fn chunk_bytes(b: Bytes) -> Seq<u8>;

/// The bytes that a `BytesMut` region currently holds, in order.
pub uninterp spec fn region_bytes(m: BytesMut) -> Seq<u8>;

/// `Bytes::len` is the number of bytes behind the handle.
pub assume_specification[ Bytes::len ](b: &Bytes) -> (n: usize)
    ensures
        n == chunk_bytes(*b).len(),
;

/// `Bytes::copy_from_slice` copies the slice into a fresh allocation; the
/// handle returned gives exactly the bytes of the slice.
pub assume_specification[ Bytes::copy_from_slice ](data: &[u8]) -> (b: Bytes)
    ensures
        chunk_bytes(b) == data@,
;

/// `BytesMut::new` makes an empty region.
pub assume_specification[ BytesMut::new ]() -> (m: BytesMut)
    ensures
        region_bytes(m) == Seq::<u8>::empty(),
;

/// `BytesMut::len` is the number of bytes in the region.
pub assume_specification[ BytesMut::len ](m: &BytesMut) -> (n: usize)
    ensures
        n == region_bytes(*m).len(),
;

/// `BytesMut::extend_from_slice` reserves room and copies the slice behind
/// the bytes already there. The reservation goes through `Vec::reserve`,
/// which panics when more than `isize::MAX` bytes are needed: the
/// precondition rules that out. Whether the allocator can serve a request
/// within that bound is, as for `Vec`, outside this contract.
pub assume_specification[ BytesMut::extend_from_slice ](m: &mut BytesMut, extend: &[u8])
    requires
        region_bytes(*old(m)).len() + extend@.len() <= isize::MAX,
    ensures
        region_bytes(*final(m)) == region_bytes(*old(m)) + extend@,
;

/// `<Bytes as Deref>::deref` lends the bytes behind the handle as a slice.
pub assume_specification<'a>[ <Bytes as core::ops::Deref>::deref ](b: &'a Bytes) -> (
    slice: &'a [u8]
)
    ensures
        slice@ == chunk_bytes(*b),
;

/// `<BytesMut as Deref>::deref` lends the bytes of the region as a slice.
pub assume_specification<'a>[ <BytesMut as core::ops::Deref>::deref ](m: &'a BytesMut) -> (
    slice: &'a [u8]
)
    ensures
        slice@ == region_bytes(*m),
;

/// `<Bytes as Clone>::clone` makes a second handle to the same bytes.
pub assume_specification[ <Bytes as Clone>::clone ](b: &Bytes) -> (c: Bytes)
    ensures
        chunk_bytes(c) == chunk_bytes(*b),
;

/// `<Bytes as From<Vec<u8>>>::from` takes the vector's allocation over; the
/// handle gives the bytes that the vector held.
pub assume_specification[ <Bytes as From<Vec<u8>>>::from ](v: Vec<u8>) -> (b: Bytes)
    ensures
        chunk_bytes(b) == v@,
;

} // verus!
