//! Byte buffers of the `bytes` crate, as the codecs use them.
//!
//! `Bytes` and `BytesMut` are opaque to Verus; their contents are named by
//! `bytes_view` and `bytes_mut_view`, and each method the codecs call has a
//! wrapper whose contract says what it does to those contents.
use vstd::prelude::*;
use bytes::BufMut;

verus! {

#[verifier::external_type_specification]
#[verifier::external_body]
pub struct ExBytes(bytes::Bytes);

#[verifier::external_type_specification]
#[verifier::external_body]
pub struct ExBytesMut(bytes::BytesMut);

/// The bytes held by a `Bytes`.
pub uninterp spec fn bytes_view(b: bytes::Bytes) -> Seq<u8>;

/// The bytes written so far into a `BytesMut`.
pub uninterp spec fn bytes_mut_view(b: bytes::BytesMut) -> Seq<u8>;

/// `Bytes::new`: an empty buffer.
#[verifier::external_body]
pub(crate) fn bytes_empty() -> (r: bytes::Bytes)
    ensures
        bytes_view(r) == Seq::<u8>::empty(),
{
    bytes::Bytes::new()
}

/// `Bytes::copy_from_slice`: a buffer holding a copy of `data`.
#[verifier::external_body]
pub(crate) fn bytes_copy_from_slice(data: &[u8]) -> (r: bytes::Bytes)
    ensures
        bytes_view(r) == data@,
{
    bytes::Bytes::copy_from_slice(data)
}

/// `Bytes::from(Vec<u8>)`: a buffer that takes over the vector's bytes.
#[verifier::external_body]
pub(crate) fn bytes_from_vec(v: Vec<u8>) -> (r: bytes::Bytes)
    ensures
        bytes_view(r) == v@,
{
    bytes::Bytes::from(v)
}

/// `Deref` of `Bytes` to `[u8]`: the slice of the buffer's bytes.
#[verifier::external_body]
pub(crate) fn bytes_as_slice(b: &bytes::Bytes) -> (r: &[u8])
    ensures
        r@ == bytes_view(*b),
{
    &b[..]
}

/// `Clone` of `Bytes`: a buffer with the same bytes.
pub assume_specification[ <bytes::Bytes as Clone>::clone ](b: &bytes::Bytes) -> (r: bytes::Bytes)
    ensures
        bytes_view(r) == bytes_view(*b),
;

/// `BytesMut::new`: an empty growable buffer.
#[verifier::external_body]
pub(crate) fn bytes_mut_new() -> (r: bytes::BytesMut)
    ensures
        bytes_mut_view(r) == Seq::<u8>::empty(),
{
    bytes::BytesMut::new()
}

/// `BufMut::put_u8` on `BytesMut`: appends one byte (the buffer grows as
/// needed; allocation failure is left aside, as for `Vec::push`).
#[verifier::external_body]
pub(crate) fn put_u8(buf: &mut bytes::BytesMut, n: u8)
    ensures
        bytes_mut_view(*final(buf)) == bytes_mut_view(*old(buf)).push(n),
{
    buf.put_u8(n)
}

/// `BufMut::put_u16` on `BytesMut`: appends the two bytes of `n`, most
/// significant first.
#[verifier::external_body]
pub(crate) fn put_u16(buf: &mut bytes::BytesMut, n: u16)
    ensures
        bytes_mut_view(*final(buf)) == bytes_mut_view(*old(buf)) + seq![
            (n / 256) as u8,
            (n % 256) as u8,
        ],
{
    buf.put_u16(n)
}

/// `BufMut::put_u16_le` on `BytesMut`: appends the two bytes of `n`, least
/// significant first.
#[verifier::external_body]
pub(crate) fn put_u16_le(buf: &mut bytes::BytesMut, n: u16)
    ensures
        bytes_mut_view(*final(buf)) == bytes_mut_view(*old(buf)) + seq![
            (n % 256) as u8,
            (n / 256) as u8,
        ],
{
    buf.put_u16_le(n)
}

/// `BytesMut::extend_from_slice`: appends all of `data`.
#[verifier::external_body]
pub(crate) fn extend_from_slice(buf: &mut bytes::BytesMut, data: &[u8])
    ensures
        bytes_mut_view(*final(buf)) == bytes_mut_view(*old(buf)) + data@,
{
    buf.extend_from_slice(data)
}

/// `Deref` of `BytesMut` to `[u8]`: the slice of the bytes written so far.
#[verifier::external_body]
pub(crate) fn bytes_mut_as_slice(b: &bytes::BytesMut) -> (r: &[u8])
    ensures
        r@ == bytes_mut_view(*b),
{
    &b[..]
}

/// `BytesMut::freeze`: an immutable buffer with the same bytes.
#[verifier::external_body]
pub(crate) fn freeze(b: bytes::BytesMut) -> (r: bytes::Bytes)
    ensures
        bytes_view(r) == bytes_mut_view(b),
{
    b.freeze()
}

} // verus!
