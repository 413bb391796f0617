//! Trusted declarations for the two outside crates the encoder computes
//! with: `bytes` (the output buffer) and `crc32fast` (the CRC-32 digest).
//! Every item here is believed by Verus without proof; each doc comment
//! says what is claimed of the outside code.

use vstd::prelude::*;

use crate::format::{le_u16, le_u32, le_u64};

verus! {

/// The output buffer type of the `bytes` crate.
#[verifier::external_type_specification]
#[verifier::external_body]
pub struct ExBytesMut(bytes::BytesMut);

/// The frozen byte buffer type of the `bytes` crate.
#[verifier::external_type_specification]
#[verifier::external_body]
pub struct ExBytes(bytes::Bytes);

/// The streaming CRC-32 digest of the `crc32fast` crate.
#[verifier::external_type_specification]
#[verifier::external_body]
pub struct ExCrcHasher(crc32fast::Hasher);

/// The bytes a `BytesMut` holds, first to last.
pub uninterp spec fn bytes_mut_view(b: bytes::BytesMut) -> Seq<u8>;

/// The bytes a `Bytes` holds, first to last.
pub uninterp spec fn bytes_view(b: bytes::Bytes) -> Seq<u8>;

/// The bytes fed so far into a `crc32fast::Hasher`, in order.
pub uninterp spec fn crc_hasher_input(h: crc32fast::Hasher) -> Seq<u8>;

/// The CRC-32 (IEEE) checksum that `crc32fast` computes for `data`.
pub uninterp spec fn crc32_of(data: Seq<u8>) -> u32;

/// The largest length a buffer may reach: `Vec` refuses capacities past
/// `isize::MAX` bytes.
pub open spec fn buffer_limit() -> nat {
    isize::MAX as nat
}

/// `BytesMut::new`: an empty buffer (the crate documents "length 0").
#[verifier::external_body]
pub fn bytes_mut_new() -> (b: bytes::BytesMut)
    ensures
        bytes_mut_view(b) == Seq::<u8>::empty(),
{
    bytes::BytesMut::new()
}

/// `BytesMut::len`: the number of bytes held.
#[verifier::external_body]
pub fn bytes_mut_len(b: &bytes::BytesMut) -> (n: usize)
    ensures
        n == bytes_mut_view(*b).len(),
{
    b.len()
}

/// `BytesMut::reserve`: grows the capacity only; the contents stay as they
/// are. The claim leaves capacity, which the crate does not fix, unsaid.
#[verifier::external_body]
pub fn bytes_mut_reserve(b: &mut bytes::BytesMut, additional: usize)
    requires
        bytes_mut_view(*old(b)).len() + additional <= buffer_limit(),
    ensures
        bytes_mut_view(*final(b)) == bytes_mut_view(*old(b)),
{
    b.reserve(additional)
}

/// `BufMut::put_u8` on `BytesMut`: appends the byte.
#[verifier::external_body]
pub fn bytes_mut_put_u8(b: &mut bytes::BytesMut, n: u8)
    requires
        bytes_mut_view(*old(b)).len() + 1 <= buffer_limit(),
    ensures
        bytes_mut_view(*final(b)) == bytes_mut_view(*old(b)).push(n),
{
    bytes::BufMut::put_u8(b, n)
}

/// `BufMut::put_u16_le` on `BytesMut`: appends `n.to_le_bytes()`.
#[verifier::external_body]
pub fn bytes_mut_put_u16_le(b: &mut bytes::BytesMut, n: u16)
    requires
        bytes_mut_view(*old(b)).len() + 2 <= buffer_limit(),
    ensures
        bytes_mut_view(*final(b)) == bytes_mut_view(*old(b)) + le_u16(n),
{
    bytes::BufMut::put_u16_le(b, n)
}

/// `BufMut::put_u32_le` on `BytesMut`: appends `n.to_le_bytes()`.
#[verifier::external_body]
pub fn bytes_mut_put_u32_le(b: &mut bytes::BytesMut, n: u32)
    requires
        bytes_mut_view(*old(b)).len() + 4 <= buffer_limit(),
    ensures
        bytes_mut_view(*final(b)) == bytes_mut_view(*old(b)) + le_u32(n),
{
    bytes::BufMut::put_u32_le(b, n)
}

/// `BufMut::put_u64_le` on `BytesMut`: appends `n.to_le_bytes()`.
#[verifier::external_body]
pub fn bytes_mut_put_u64_le(b: &mut bytes::BytesMut, n: u64)
    requires
        bytes_mut_view(*old(b)).len() + 8 <= buffer_limit(),
    ensures
        bytes_mut_view(*final(b)) == bytes_mut_view(*old(b)) + le_u64(n),
{
    bytes::BufMut::put_u64_le(b, n)
}

/// `BufMut::put_slice` on `BytesMut`: appends the slice.
#[verifier::external_body]
pub fn bytes_mut_put_slice(b: &mut bytes::BytesMut, src: &[u8])
    requires
        bytes_mut_view(*old(b)).len() + src@.len() <= buffer_limit(),
    ensures
        bytes_mut_view(*final(b)) == bytes_mut_view(*old(b)) + src@,
{
    bytes::BufMut::put_slice(b, src)
}

/// `BytesMut::split`: hands out everything held and leaves the buffer
/// empty.
#[verifier::external_body]
pub fn bytes_mut_split(b: &mut bytes::BytesMut) -> (taken: bytes::BytesMut)
    ensures
        bytes_mut_view(taken) == bytes_mut_view(*old(b)),
        bytes_mut_view(*final(b)) == Seq::<u8>::empty(),
{
    b.split()
}

/// `BytesMut::freeze`: the same bytes as an immutable `Bytes`.
#[verifier::external_body]
pub fn bytes_mut_freeze(b: bytes::BytesMut) -> (frozen: bytes::Bytes)
    ensures
        bytes_view(frozen) == bytes_mut_view(b),
{
    b.freeze()
}

/// `<Bytes as Deref>::deref`: the bytes held, as a slice.
#[verifier::external_body]
pub fn bytes_as_slice(b: &bytes::Bytes) -> (s: &[u8])
    ensures
        s@ == bytes_view(*b),
{
    b
}

/// `crc32fast::Hasher::new`: a digest that has been fed nothing.
#[verifier::external_body]
pub fn crc_hasher_new() -> (h: crc32fast::Hasher)
    ensures
        crc_hasher_input(h) == Seq::<u8>::empty(),
{
    crc32fast::Hasher::new()
}

/// `crc32fast::Hasher::update`: feeds `data` after what was fed before.
/// The crate counts the bytes fed in a `u64`, which must not overflow.
#[verifier::external_body]
pub fn crc_hasher_update(h: &mut crc32fast::Hasher, data: &[u8])
    requires
        crc_hasher_input(*old(h)).len() + data@.len() <= u64::MAX,
    ensures
        crc_hasher_input(*final(h)) == crc_hasher_input(*old(h)) + data@,
{
    h.update(data)
}

/// `crc32fast::Hasher::finalize`: the CRC-32 of all bytes fed.
#[verifier::external_body]
pub fn crc_hasher_finalize(h: crc32fast::Hasher) -> (crc: u32)
    ensures
        crc == crc32_of(crc_hasher_input(h)),
{
    h.finalize()
}

} // verus!
