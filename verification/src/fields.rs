//! The fixed-size and length-prefixed fields that packets are made of: single
//! bytes, big-endian 16-bit numbers, byte strings and UTF-8 strings. A byte
//! string is its length as a big-endian 16-bit number followed by its bytes; a
//! string is the byte string of its UTF-8 encoding.

use crate::buffers::{
    bytes_as_slice, bytes_content, bytes_get_u16, bytes_get_u8, bytes_len, bytes_mut_content,
    bytes_mut_extend_from_slice, bytes_mut_put_u16, bytes_split_to, string_from_utf8,
};
use crate::error::Error;
use bytes::{Bytes, BytesMut};
use vstd::prelude::*;
use vstd::slice::slice_to_vec;
use vstd::string::StringSliceAdditionalSpecFns;
use vstd::utf8::{decode_utf8, encode_utf8, valid_utf8};

verus! {

/// The largest length that a length prefix can announce.
pub const MAX_FIELD_LENGTH: usize = 65_535;

/// The two bytes of `value`, high byte first.
pub open spec fn spec_encode_u16(value: nat) -> Seq<u8> {
    seq![(value / 256 % 256) as u8, (value % 256) as u8]
}

/// The number that the first two bytes of `stream` spell, high byte first.
pub open spec fn spec_decode_u16(stream: Seq<u8>) -> nat {
    (stream[0] * 256 + stream[1]) as nat
}

/// The encoding of a byte string. The prefix holds the low 16 bits of the
/// length, so it is the length itself up to [`MAX_FIELD_LENGTH`].
pub open spec fn spec_encode_bytes(data: Seq<u8>) -> Seq<u8> {
    spec_encode_u16(data.len() % 65_536) + data
}

/// The encoding of a string.
pub open spec fn spec_encode_string(text: Seq<char>) -> Seq<u8> {
    spec_encode_bytes(encode_utf8(text))
}

/// The byte string at the front of `stream`. It takes two bytes more of the
/// stream than it holds.
pub open spec fn spec_decode_bytes(stream: Seq<u8>) -> Result<Seq<u8>, Error> {
    if stream.len() < 2 {
        Err(Error::MalformedPacket)
    } else if spec_decode_u16(stream) > stream.len() - 2 {
        Err(Error::BoundaryCrossed(spec_decode_u16(stream) as usize))
    } else {
        Ok(stream.subrange(2, 2 + spec_decode_u16(stream) as int))
    }
}

/// The string at the front of `stream`. It takes two bytes more of the stream
/// than its UTF-8 encoding has.
pub open spec fn spec_decode_string(stream: Seq<u8>) -> Result<Seq<char>, Error> {
    match spec_decode_bytes(stream) {
        Err(e) => Err(e),
        Ok(data) => if valid_utf8(data) {
            Ok(decode_utf8(data))
        } else {
            Err(Error::TopicNotUtf8)
        },
    }
}

/// Decoding an encoded byte string gives it back, whatever follows it.
pub proof fn lemma_bytes_round_trip(data: Seq<u8>, rest: Seq<u8>)
    requires
        data.len() <= MAX_FIELD_LENGTH,
    ensures
        spec_decode_bytes(spec_encode_bytes(data) + rest) == Ok::<Seq<u8>, Error>(data),
        spec_encode_bytes(data).len() == 2 + data.len(),
{
    let stream = spec_encode_bytes(data) + rest;
    assert(stream[0] == (data.len() / 256) as u8);
    assert(stream[1] == (data.len() % 256) as u8);
    assert(stream.subrange(2, 2 + data.len() as int) =~= data);
}

/// Decoding an encoded string gives it back, whatever follows it.
pub proof fn lemma_string_round_trip(text: Seq<char>, rest: Seq<u8>)
    requires
        encode_utf8(text).len() <= MAX_FIELD_LENGTH,
    ensures
        spec_decode_string(spec_encode_string(text) + rest) == Ok::<Seq<char>, Error>(text),
        spec_encode_string(text).len() == 2 + encode_utf8(text).len(),
{
    lemma_bytes_round_trip(encode_utf8(text), rest);
    vstd::utf8::encode_utf8_valid_utf8(text);
    vstd::utf8::encode_utf8_decode_utf8(text);
}

/// Takes one byte off the front of `stream`.
pub fn read_u8(stream: &mut Bytes) -> (r: Result<u8, Error>)
    ensures
        match r {
            Ok(v) => bytes_content(*old(stream)).len() >= 1 && v == bytes_content(*old(stream))[0]
                && bytes_content(*final(stream)) == bytes_content(*old(stream)).skip(1),
            Err(e) => bytes_content(*old(stream)).len() == 0 && e == Error::MalformedPacket
                && bytes_content(*final(stream)) == bytes_content(*old(stream)),
        },
{
    if bytes_len(stream) == 0 {
        return Err(Error::MalformedPacket);
    }
    Ok(bytes_get_u8(stream))
}

/// Takes a big-endian 16-bit number off the front of `stream`.
pub fn read_u16(stream: &mut Bytes) -> (r: Result<u16, Error>)
    ensures
        match r {
            Ok(v) => bytes_content(*old(stream)).len() >= 2 && v == spec_decode_u16(
                bytes_content(*old(stream)),
            ) && bytes_content(*final(stream)) == bytes_content(*old(stream)).skip(2),
            Err(e) => bytes_content(*old(stream)).len() < 2 && e == Error::MalformedPacket
                && bytes_content(*final(stream)) == bytes_content(*old(stream)),
        },
{
    if bytes_len(stream) < 2 {
        return Err(Error::MalformedPacket);
    }
    Ok(bytes_get_u16(stream))
}

/// Takes a byte string off the front of `stream`. When the prefix announces more
/// than the stream holds, the prefix alone has been taken off.
pub fn read_mqtt_bytes(stream: &mut Bytes) -> (r: Result<Bytes, Error>)
    ensures
        match r {
            Ok(data) => spec_decode_bytes(bytes_content(*old(stream))) == Ok::<Seq<u8>, Error>(
                bytes_content(data),
            ) && bytes_content(*final(stream)) == bytes_content(*old(stream)).skip(
                2 + bytes_content(data).len() as int,
            ) && bytes_content(data).len() <= MAX_FIELD_LENGTH && 2 + bytes_content(data).len()
                <= bytes_content(*old(stream)).len(),
            Err(e) => spec_decode_bytes(bytes_content(*old(stream))) == Err::<Seq<u8>, Error>(e)
                && bytes_content(*final(stream)) == (if e == Error::MalformedPacket {
                bytes_content(*old(stream))
            } else {
                bytes_content(*old(stream)).skip(2)
            }),
        },
{
    let len = match read_u16(stream) {
        Ok(v) => v as usize,
        Err(e) => { return Err(e); },
    };
    if len > bytes_len(stream) {
        return Err(Error::BoundaryCrossed(len));
    }
    let data = bytes_split_to(stream, len);
    proof {
        let all = bytes_content(*old(stream));
        assert(all.skip(2).take(len as int) =~= all.subrange(2, 2 + len));
        assert(all.skip(2).skip(len as int) =~= all.skip(2 + len));
    }
    Ok(data)
}

/// Takes a string off the front of `stream`. When the prefix announces more
/// than the stream holds, the prefix alone has been taken off; when the field
/// is not well-formed UTF-8, the whole field has.
pub fn read_mqtt_string(stream: &mut Bytes) -> (r: Result<String, Error>)
    ensures
        match r {
            Ok(text) => spec_decode_string(bytes_content(*old(stream))) == Ok::<
                Seq<char>,
                Error,
            >(text@) && bytes_content(*final(stream)) == bytes_content(*old(stream)).skip(
                2 + encode_utf8(text@).len() as int,
            ) && encode_utf8(text@).len() <= MAX_FIELD_LENGTH && 2 + encode_utf8(text@).len()
                <= bytes_content(*old(stream)).len(),
            Err(e) => spec_decode_string(bytes_content(*old(stream))) == Err::<Seq<char>, Error>(
                e,
            ) && bytes_content(*final(stream)) == (match e {
                Error::MalformedPacket => bytes_content(*old(stream)),
                Error::TopicNotUtf8 => bytes_content(*old(stream)).skip(
                    2 + spec_decode_u16(bytes_content(*old(stream))) as int,
                ),
                _ => bytes_content(*old(stream)).skip(2),
            }),
        },
{
    let data = match read_mqtt_bytes(stream) {
        Ok(data) => data,
        Err(e) => { return Err(e); },
    };
    let copy = slice_to_vec(bytes_as_slice(&data));
    match string_from_utf8(copy) {
        Ok(text) => {
            proof {
                vstd::utf8::encode_utf8_decode_utf8(text@);
            }
            Ok(text)
        },
        Err(_e) => Err(Error::TopicNotUtf8),
    }
}

/// Appends the encoding of a byte string to `stream`.
pub fn write_mqtt_bytes(stream: &mut BytesMut, bytes: &[u8])
    requires
        bytes_mut_content(*old(stream)).len() + 2 + bytes@.len() <= isize::MAX,
    ensures
        bytes_mut_content(*final(stream)) == bytes_mut_content(*old(stream)) + spec_encode_bytes(
            bytes@,
        ),
{
    let len = bytes.len();
    let prefix: u16 = #[verifier::truncate] (len as u16);
    proof {
        assert(prefix == len % 65_536) by (bit_vector)
            requires
                prefix == len as u16,
        ;
    }
    bytes_mut_put_u16(stream, prefix);
    bytes_mut_extend_from_slice(stream, bytes);
    proof {
        let before = bytes_mut_content(*old(stream));
        assert(before.push((prefix / 256) as u8).push((prefix % 256) as u8) + bytes@ =~= before
            + spec_encode_bytes(bytes@));
    }
}

/// Appends the encoding of a string to `stream`.
pub fn write_mqtt_string(stream: &mut BytesMut, string: &str)
    requires
        bytes_mut_content(*old(stream)).len() + 2 + encode_utf8(string@).len() <= isize::MAX,
    ensures
        bytes_mut_content(*final(stream)) == bytes_mut_content(*old(stream)) + spec_encode_string(
            string@,
        ),
{
    write_mqtt_bytes(stream, string.as_bytes());
}

} // verus!
