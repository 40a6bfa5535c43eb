//! The byte containers of the `bytes` and `bytestring` crates, as the codec
//! sees them: each holds a finite sequence of bytes.
//!
//! The contracts of the free functions here are not proved. Each of them
//! makes one call into one of the two crates, and its contract says what
//! that call does to the bytes held.

use vstd::prelude::*;
use bytes::BufMut;
use bytes::Bytes;
use bytes::BytesMut;
use vstd::string::StringSliceAdditionalSpecFns;

verus! {

/// `bytes::Bytes`, an immutable buffer: carried through, never looked into.
#[verifier::external_type_specification]
#[verifier::external_body]
pub struct ExBytes(Bytes);

/// `bytes::BytesMut`, a growable buffer: carried through, never looked
/// into.
#[verifier::external_type_specification]
#[verifier::external_body]
pub struct ExBytesMut(BytesMut);

/// A UTF-8 string kept in shared, immutable storage. It holds a
/// `bytestring::ByteString`, a type that Verus does not accept by
/// declaration, and is made from checked UTF-8 only.
#[verifier::external_body]
#[derive(Debug, PartialEq, Eq)]
pub struct ByteStr {
    inner: bytestring::ByteString,
}

/// The bytes that a growable buffer holds, in the order they were written.
pub uninterp spec fn buf_bytes(b: BytesMut) -> Seq<u8>;

/// The bytes that an immutable buffer holds.
pub uninterp spec fn bytes_view(b: Bytes) -> Seq<u8>;

/// The bytes of a string's UTF-8 encoding.
pub uninterp spec fn text_bytes(s: ByteStr) -> Seq<u8>;

/// A 16-bit integer as two bytes, most significant first.
pub open spec fn be16(n: u16) -> Seq<u8> {
    seq![(n / 256) as u8, (n % 256) as u8]
}

/// `BufMut::put_u8` on a `BytesMut`: appends the byte. The buffer grows as
/// needed, as a `Vec` does.
#[verifier::external_body]
pub(crate) fn put_u8(dst: &mut BytesMut, n: u8)
    ensures
        buf_bytes(*final(dst)) == buf_bytes(*old(dst)).push(n),
{
    dst.put_u8(n)
}

/// `BufMut::put_u16` on a `BytesMut`: appends the integer in big-endian
/// order, which is what `u16::to_be_bytes` gives.
#[verifier::external_body]
pub(crate) fn put_u16(dst: &mut BytesMut, n: u16)
    ensures
        buf_bytes(*final(dst)) == buf_bytes(*old(dst)) + be16(n),
{
    dst.put_u16(n)
}

/// `BufMut::put_slice` on a `BytesMut`: appends the slice.
#[verifier::external_body]
pub(crate) fn put_slice(dst: &mut BytesMut, src: &[u8])
    ensures
        buf_bytes(*final(dst)) == buf_bytes(*old(dst)) + src@,
{
    dst.put_slice(src)
}

/// `BytesMut::extend_from_slice`: appends the slice.
#[verifier::external_body]
pub(crate) fn extend_from_slice(dst: &mut BytesMut, src: &[u8])
    ensures
        buf_bytes(*final(dst)) == buf_bytes(*old(dst)) + src@,
{
    dst.extend_from_slice(src)
}

/// `Bytes::len`: the number of bytes held.
#[verifier::external_body]
pub(crate) fn bytes_len(b: &Bytes) -> (n: usize)
    ensures
        n == bytes_view(*b).len(),
{
    b.len()
}

/// `AsRef<[u8]>::as_ref` on `Bytes`: the bytes held, as a slice.
#[verifier::external_body]
pub(crate) fn bytes_as_slice(b: &Bytes) -> (s: &[u8])
    ensures
        s@ == bytes_view(*b),
{
    b.as_ref()
}

/// `Bytes::slice` with the range `begin..end`: a buffer that shares the
/// storage and holds the bytes from `begin` up to `end`. The call panics
/// when the range does not lie within the buffer.
#[verifier::external_body]
pub(crate) fn bytes_slice(b: &Bytes, begin: usize, end: usize) -> (r: Bytes)
    requires
        begin <= end <= bytes_view(*b).len(),
    ensures
        bytes_view(r) == bytes_view(*b).subrange(begin as int, end as int),
{
    b.slice(begin..end)
}

/// `Clone::clone` on `Bytes`: a second handle on the same bytes.
pub assume_specification[ <Bytes as Clone>::clone ](b: &Bytes) -> (r: Bytes)
    ensures
        bytes_view(r) == bytes_view(*b),
;

/// `ByteString::as_bytes`: the storage of the string. A `ByteString` is
/// built from checked UTF-8 only, so the bytes handed out are valid UTF-8.
#[verifier::external_body]
pub(crate) fn text_as_bytes(s: &ByteStr) -> (b: &Bytes)
    ensures
        bytes_view(*b) == text_bytes(*s),
        vstd::utf8::valid_utf8(bytes_view(*b)),
{
    s.inner.as_bytes()
}

/// `TryFrom<Bytes>` for `ByteString`: the buffer becomes a string with the
/// same bytes when they are valid UTF-8, and is refused otherwise.
#[verifier::external_body]
pub(crate) fn text_from_bytes(b: Bytes) -> (r: Option<ByteStr>)
    ensures
        r.is_some() == vstd::utf8::valid_utf8(bytes_view(b)),
        r matches Some(s) ==> text_bytes(s) == bytes_view(b),
{
    match bytestring::ByteString::try_from(b) {
        Ok(inner) => Some(ByteStr { inner }),
        Err(_) => None,
    }
}

/// `ByteString::from_static`: a string over the bytes of a literal.
#[verifier::external_body]
pub(crate) fn text_from_static(src: &'static str) -> (r: ByteStr)
    ensures
        text_bytes(r) == src.spec_bytes(),
{
    ByteStr { inner: bytestring::ByteString::from_static(src) }
}

impl Clone for ByteStr {
    /// `Clone::clone` on `ByteString`: a second handle on the same bytes.
    #[verifier::external_body]
    fn clone(&self) -> (r: ByteStr)
        ensures
            text_bytes(r) == text_bytes(*self),
    {
        ByteStr { inner: self.inner.clone() }
    }
}

impl ByteStr {
    /// A string over the bytes of a literal.
    pub fn from_static(src: &'static str) -> (r: ByteStr)
        ensures
            text_bytes(r) == src.spec_bytes(),
    {
        text_from_static(src)
    }

    /// The string that a buffer holds, sharing its storage; none when the
    /// bytes are not valid UTF-8.
    pub fn try_from_bytes(b: Bytes) -> (r: Option<ByteStr>)
        ensures
            r.is_some() == vstd::utf8::valid_utf8(bytes_view(b)),
            r matches Some(s) ==> text_bytes(s) == bytes_view(b),
    {
        text_from_bytes(b)
    }

    /// The bytes of the string.
    pub fn as_bytes(&self) -> (b: &Bytes)
        ensures
            bytes_view(*b) == text_bytes(*self),
            vstd::utf8::valid_utf8(bytes_view(*b)),
    {
        text_as_bytes(self)
    }

    /// Length of the string in bytes.
    pub fn len(&self) -> (n: usize)
        ensures
            n == text_bytes(*self).len(),
    {
        bytes_len(text_as_bytes(self))
    }
}

} // verus!
