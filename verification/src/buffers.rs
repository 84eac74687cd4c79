//! The byte buffers that packets are read from and written to.
//!
//! `bytes::Bytes` and `bytes::BytesMut` are opaque to the verifier. What a buffer
//! holds is named by [`bytes_content`] and [`bytes_mut_content`]; every function
//! in this module is a thin call into `bytes` (or `std`) whose contract is taken
//! on trust from that crate's source and documentation.

use bytes::{Buf, BufMut, Bytes, BytesMut};
use vstd::prelude::*;
use vstd::utf8::{encode_utf8, valid_utf8};

verus! {

/// `bytes::Bytes`, a cheaply cloneable window onto immutable bytes.
#[verifier::external_type_specification]
#[verifier::external_body]
pub struct ExBytes(bytes::Bytes);

/// `bytes::BytesMut`, a growable byte buffer.
#[verifier::external_type_specification]
#[verifier::external_body]
pub struct ExBytesMut(bytes::BytesMut);

/// `std::string::FromUtf8Error`, the error of `String::from_utf8`.
#[verifier::external_type_specification]
#[verifier::external_body]
pub struct ExFromUtf8Error(std::string::FromUtf8Error);

/// The bytes that a `Bytes` holds, first to last: what `&b[..]` shows.
pub uninterp spec fn bytes_content(b: Bytes) -> Seq<u8>;

/// The bytes that a `BytesMut` holds, first to last: what `&b[..]` shows.
pub uninterp spec fn bytes_mut_content(b: BytesMut) -> Seq<u8>;

/// `Bytes::len`: the number of bytes held.
#[verifier::external_body]
pub(crate) fn bytes_len(b: &Bytes) -> (n: usize)
    ensures
        n == bytes_content(*b).len(),
{
    b.len()
}

/// `Deref for Bytes`: the held bytes as a slice.
#[verifier::external_body]
pub(crate) fn bytes_as_slice(b: &Bytes) -> (s: &[u8])
    ensures
        s@ == bytes_content(*b),
{
    &b[..]
}

/// `Buf::advance` on `Bytes`: drops the first `cnt` bytes. The call panics when
/// fewer than `cnt` bytes are held, which the precondition excludes.
#[verifier::external_body]
pub(crate) fn bytes_advance(b: &mut Bytes, cnt: usize)
    requires
        cnt <= bytes_content(*old(b)).len(),
    ensures
        bytes_content(*final(b)) == bytes_content(*old(b)).skip(cnt as int),
{
    b.advance(cnt)
}

/// `Buf::get_u8` on `Bytes`: takes the first byte off the front. The call panics
/// on an empty buffer, which the precondition excludes.
#[verifier::external_body]
pub(crate) fn bytes_get_u8(b: &mut Bytes) -> (v: u8)
    requires
        bytes_content(*old(b)).len() >= 1,
    ensures
        v == bytes_content(*old(b))[0],
        bytes_content(*final(b)) == bytes_content(*old(b)).skip(1),
{
    b.get_u8()
}

/// `Buf::get_u16` on `Bytes`: takes the first two bytes off the front and reads
/// them as a big-endian number. The call panics when fewer than two bytes are
/// held, which the precondition excludes.
#[verifier::external_body]
pub(crate) fn bytes_get_u16(b: &mut Bytes) -> (v: u16)
    requires
        bytes_content(*old(b)).len() >= 2,
    ensures
        v == bytes_content(*old(b))[0] * 256 + bytes_content(*old(b))[1],
        bytes_content(*final(b)) == bytes_content(*old(b)).skip(2),
{
    b.get_u16()
}

/// `Bytes::split_to`: returns the first `at` bytes and leaves the rest. The call
/// panics when `at` is past the end, which the precondition excludes.
#[verifier::external_body]
pub(crate) fn bytes_split_to(b: &mut Bytes, at: usize) -> (head: Bytes)
    requires
        at <= bytes_content(*old(b)).len(),
    ensures
        bytes_content(head) == bytes_content(*old(b)).take(at as int),
        bytes_content(*final(b)) == bytes_content(*old(b)).skip(at as int),
{
    b.split_to(at)
}

/// `BufMut::put_u8` on `BytesMut`: appends one byte, growing the buffer as needed.
/// `BytesMut` reports `isize::MAX - len` bytes of room and the call is documented
/// to panic beyond it, which the precondition excludes.
#[verifier::external_body]
pub(crate) fn bytes_mut_put_u8(b: &mut BytesMut, v: u8)
    requires
        bytes_mut_content(*old(b)).len() + 1 <= isize::MAX,
    ensures
        bytes_mut_content(*final(b)) == bytes_mut_content(*old(b)).push(v),
{
    b.put_u8(v)
}

/// `BufMut::put_u16` on `BytesMut`: appends the two bytes of `v`, high byte first.
/// The precondition keeps within the room that `BytesMut` reports, as for
/// [`bytes_mut_put_u8`].
#[verifier::external_body]
pub(crate) fn bytes_mut_put_u16(b: &mut BytesMut, v: u16)
    requires
        bytes_mut_content(*old(b)).len() + 2 <= isize::MAX,
    ensures
        bytes_mut_content(*final(b)) == bytes_mut_content(*old(b)).push((v / 256) as u8).push(
            (v % 256) as u8,
        ),
{
    b.put_u16(v)
}

/// `BytesMut::extend_from_slice`: appends a copy of `extend`. The precondition
/// keeps within the room that `BytesMut` reports, as for [`bytes_mut_put_u8`].
#[verifier::external_body]
pub(crate) fn bytes_mut_extend_from_slice(b: &mut BytesMut, extend: &[u8])
    requires
        bytes_mut_content(*old(b)).len() + extend@.len() <= isize::MAX,
    ensures
        bytes_mut_content(*final(b)) == bytes_mut_content(*old(b)) + extend@,
{
    b.extend_from_slice(extend)
}

/// `String::from_utf8`: succeeds exactly on well-formed UTF-8, and the string it
/// then returns has the given bytes as its UTF-8 encoding.
#[verifier::external_body]
pub(crate) fn string_from_utf8(v: Vec<u8>) -> (r: Result<String, std::string::FromUtf8Error>)
    ensures
        r is Ok <==> valid_utf8(v@),
        r matches Ok(s) ==> encode_utf8(s@) == v@,
{
    String::from_utf8(v)
}

} // verus!
