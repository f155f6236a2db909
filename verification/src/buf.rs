//! Reference-counted and growable byte buffers, as the `bytes` crate provides them.
//!
//! The buffers themselves are opaque; [`bytes_view`] and [`buffer_view`] name what they hold,
//! and the functions below say what each operation does to it.
use vstd::prelude::*;
use vstd::utf8::encode_utf8;

verus! {

/// `bytes::Bytes`: an immutable byte string that is cheap to clone and to slice.
#[verifier::external_type_specification]
#[verifier::external_body]
pub struct ExBytes(bytes::Bytes);

/// `bytes::BytesMut`: a growable byte string.
#[verifier::external_type_specification]
#[verifier::external_body]
pub struct ExBytesMut(bytes::BytesMut);

/// The bytes that a `Bytes` holds, in order.
pub uninterp spec fn bytes_view(b: bytes::Bytes) -> Seq<u8>;

/// The bytes that a `BytesMut` holds, in order.
pub uninterp spec fn buffer_view(b: bytes::BytesMut) -> Seq<u8>;

/// `Bytes::deref`: the held bytes as a slice.
#[verifier::external_body]
pub(crate) fn as_slice(b: &bytes::Bytes) -> (r: &[u8])
    ensures
        r@ == bytes_view(*b),
{
    b
}

/// `Bytes::slice`: the bytes from `from` up to, not including, `to`. The crate panics when the
/// range is not within the buffer, so the range has to be.
#[verifier::external_body]
pub(crate) fn slice(b: &bytes::Bytes, from: usize, to: usize) -> (r: bytes::Bytes)
    requires
        from <= to <= bytes_view(*b).len(),
    ensures
        bytes_view(r) == bytes_view(*b).subrange(from as int, to as int),
{
    b.slice(from..to)
}

/// `Bytes::clone`: another handle to the same bytes.
#[verifier::external_body]
pub(crate) fn share(b: &bytes::Bytes) -> (r: bytes::Bytes)
    ensures
        bytes_view(r) == bytes_view(*b),
{
    b.clone()
}

/// `Bytes::from(Vec<u8>)`: the vector's bytes.
#[verifier::external_body]
pub(crate) fn from_vec(v: Vec<u8>) -> (r: bytes::Bytes)
    ensures
        bytes_view(r) == v@,
{
    bytes::Bytes::from(v)
}

/// `Bytes::from(String)`: the string's UTF-8 bytes.
#[verifier::external_body]
pub(crate) fn from_string(s: String) -> (r: bytes::Bytes)
    ensures
        bytes_view(r) == encode_utf8(s@),
{
    bytes::Bytes::from(s)
}

/// `Bytes::copy_from_slice`: a copy of the slice's bytes.
#[verifier::external_body]
pub(crate) fn copy_from_slice(s: &[u8]) -> (r: bytes::Bytes)
    ensures
        bytes_view(r) == s@,
{
    bytes::Bytes::copy_from_slice(s)
}

/// `BytesMut::deref`: the buffered bytes as a slice.
#[verifier::external_body]
pub(crate) fn buffer_slice(b: &bytes::BytesMut) -> (r: &[u8])
    ensures
        r@ == buffer_view(*b),
{
    b
}

/// `BytesMut::from(&[u8])`: a buffer that holds a copy of the slice.
#[verifier::external_body]
pub(crate) fn buffer_from_slice(s: &[u8]) -> (r: bytes::BytesMut)
    ensures
        buffer_view(r) == s@,
{
    bytes::BytesMut::from(s)
}

/// `BytesMut::extend_from_slice`: appends the slice. The crate panics when the grown buffer
/// would exceed the largest allocation, `isize::MAX` bytes.
#[verifier::external_body]
pub(crate) fn buffer_extend(b: &mut bytes::BytesMut, s: &[u8])
    requires
        buffer_view(*old(b)).len() + s@.len() <= isize::MAX,
    ensures
        buffer_view(*final(b)) == buffer_view(*old(b)) + s@,
{
    b.extend_from_slice(s)
}

} // verus!
