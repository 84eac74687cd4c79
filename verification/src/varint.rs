//! The variable-length integer that announces a remaining length or the length
//! of a property block: seven bits of the value per byte, low bits first, the
//! top bit of a byte set when another byte follows, four bytes at most.

use crate::buffers::{bytes_mut_content, bytes_mut_put_u8};
use crate::error::Error;
use bytes::BytesMut;
use vstd::prelude::*;

verus! {

/// The largest value that four bytes can announce.
pub const MAX_REMAINING_LENGTH: usize = 268_435_455;

/// How many bytes the encoding of `len` takes.
pub open spec fn spec_len_len(len: nat) -> nat {
    if len >= 2_097_152 {
        4
    } else if len >= 16_384 {
        3
    } else if len >= 128 {
        2
    } else {
        1
    }
}

/// The encoding of `value`: its low seven bits, with the top bit set if more
/// follows, then the encoding of what is left.
pub open spec fn spec_encode_length(value: nat) -> Seq<u8>
    decreases value,
{
    if value < 128 {
        seq![value as u8]
    } else {
        seq![(value % 128 + 128) as u8] + spec_encode_length(value / 128)
    }
}

/// The seven value bits of an encoded byte.
pub open spec fn value_bits(byte: u8) -> nat {
    (byte % 128) as nat
}

/// Whether an encoded byte says that another byte follows.
pub open spec fn continues(byte: u8) -> bool {
    byte >= 128
}

/// What the front of `stream` announces: the number of bytes that the integer
/// takes and its value. The integer ends at the first byte that does not
/// continue. It is malformed when the first four bytes all continue, and
/// incomplete when the stream ends before that can be told.
pub open spec fn spec_decode_length(stream: Seq<u8>) -> Result<(nat, nat), Error> {
    if stream.len() == 0 {
        Err(Error::InsufficientBytes(1))
    } else if !continues(stream[0]) {
        Ok((1, value_bits(stream[0])))
    } else if stream.len() == 1 {
        Err(Error::InsufficientBytes(1))
    } else if !continues(stream[1]) {
        Ok((2, value_bits(stream[0]) + 128 * value_bits(stream[1])))
    } else if stream.len() == 2 {
        Err(Error::InsufficientBytes(1))
    } else if !continues(stream[2]) {
        Ok(
            (
                3,
                value_bits(stream[0]) + 128 * value_bits(stream[1]) + 16_384 * value_bits(
                    stream[2],
                ),
            ),
        )
    } else if stream.len() == 3 {
        Err(Error::InsufficientBytes(1))
    } else if !continues(stream[3]) {
        Ok(
            (
                4,
                value_bits(stream[0]) + 128 * value_bits(stream[1]) + 16_384 * value_bits(stream[2])
                    + 2_097_152 * value_bits(stream[3]),
            ),
        )
    } else {
        Err(Error::MalformedPacket)
    }
}

/// The value that the first `count` bytes of `stream` contribute.
spec fn partial_value(stream: Seq<u8>, count: nat) -> nat {
    if count == 0 {
        0
    } else if count == 1 {
        value_bits(stream[0])
    } else if count == 2 {
        value_bits(stream[0]) + 128 * value_bits(stream[1])
    } else if count == 3 {
        value_bits(stream[0]) + 128 * value_bits(stream[1]) + 16_384 * value_bits(stream[2])
    } else {
        value_bits(stream[0]) + 128 * value_bits(stream[1]) + 16_384 * value_bits(stream[2])
            + 2_097_152 * value_bits(stream[3])
    }
}

/// An encoding is as long as `spec_len_len` says.
pub proof fn lemma_encode_length_len(value: nat)
    requires
        value <= MAX_REMAINING_LENGTH,
    ensures
        spec_encode_length(value).len() == spec_len_len(value),
{
    reveal_with_fuel(spec_encode_length, 4);
}

/// Decoding an encoded value gives the value back, with the number of bytes that
/// the encoding took, whatever follows it in the stream.
pub proof fn lemma_length_round_trip(value: nat, rest: Seq<u8>)
    requires
        value <= MAX_REMAINING_LENGTH,
    ensures
        spec_decode_length(spec_encode_length(value) + rest) == Ok::<(nat, nat), Error>(
            (spec_len_len(value), value),
        ),
{
    reveal_with_fuel(spec_encode_length, 4);
    let stream = spec_encode_length(value) + rest;
    if value < 128 {
        assert(stream[0] == value as u8);
    } else if value < 16_384 {
        assert(stream[0] == (value % 128 + 128) as u8);
        assert(stream[1] == (value / 128) as u8);
    } else if value < 2_097_152 {
        assert(stream[0] == (value % 128 + 128) as u8);
        assert(stream[1] == (value / 128 % 128 + 128) as u8);
        assert(stream[2] == (value / 128 / 128) as u8);
    } else {
        assert(stream[0] == (value % 128 + 128) as u8);
        assert(stream[1] == (value / 128 % 128 + 128) as u8);
        assert(stream[2] == (value / 128 / 128 % 128 + 128) as u8);
        assert(stream[3] == (value / 128 / 128 / 128) as u8);
    }
}

/// A decoded integer takes at most four bytes of the stream and is at most
/// [`MAX_REMAINING_LENGTH`].
pub proof fn lemma_decode_length_bounds(stream: Seq<u8>)
    ensures
        spec_decode_length(stream) matches Ok((count, value)) ==> 1 <= count <= 4 && count
            <= stream.len() && value <= MAX_REMAINING_LENGTH,
        stream.len() >= 4 && continues(stream[0]) && continues(stream[1]) && continues(stream[2])
            && continues(stream[3]) ==> spec_decode_length(stream) == Err::<(nat, nat), Error>(
            Error::MalformedPacket,
        ),
{
}

/// How many bytes the encoding of `len` takes.
pub fn len_len(len: usize) -> (n: usize)
    ensures
        n == spec_len_len(len as nat),
{
    if len >= 2_097_152 {
        4
    } else if len >= 16_384 {
        3
    } else if len >= 128 {
        2
    } else {
        1
    }
}

/// Reads the variable-length integer at the front of `stream` and returns the
/// number of bytes it takes and its value.
pub fn length(stream: &[u8]) -> (r: Result<(usize, usize), Error>)
    ensures
        match r {
            Ok((count, value)) => spec_decode_length(stream@) == Ok::<(nat, nat), Error>(
                (count as nat, value as nat),
            ),
            Err(e) => spec_decode_length(stream@) == Err::<(nat, nat), Error>(e),
        },
        r matches Ok((count, value)) ==> 1 <= count <= 4 && count <= stream@.len() && value
            <= MAX_REMAINING_LENGTH,
{
    let mut len: usize = 0;
    let mut len_len: usize = 0;
    let mut shift: usize = 0;
    let mut i: usize = 0;
    while i < stream.len()
        invariant
            i <= 3,
            i <= stream@.len(),
            len_len == i,
            shift == 7 * i,
            forall|j: int| 0 <= j < i ==> continues(#[trigger] stream@[j]),
            len == partial_value(stream@, i as nat),
        decreases stream@.len() - i,
    {
        let byte: u8 = stream[i];
        let low: usize = (byte & 0x7F) as usize;
        proof {
            assert(byte & 0x7F == byte % 128) by (bit_vector);
            assert((byte & 0x80 == 0) == (byte < 128)) by (bit_vector);
            assert(low << 0 == low) by (bit_vector);
            assert(low << 7 == low * 128) by (bit_vector)
                requires
                    low < 128,
            ;
            assert(low << 14 == low * 16_384) by (bit_vector)
                requires
                    low < 128,
            ;
            assert(low << 21 == low * 2_097_152) by (bit_vector)
                requires
                    low < 128,
            ;
        }
        len_len += 1;
        len += low << shift;
        if byte & 0x80 == 0 {
            return Ok((len_len, len));
        }
        shift += 7;
        if shift > 21 {
            return Err(Error::MalformedPacket);
        }
        i += 1;
    }
    Err(Error::InsufficientBytes(1))
}

/// Appends the encoding of `len` to `stream` and returns the number of bytes
/// that it took. A length above [`MAX_REMAINING_LENGTH`] is refused, and nothing
/// is written.
pub fn write_remaining_length(stream: &mut BytesMut, len: usize) -> (r: Result<usize, Error>)
    requires
        len <= MAX_REMAINING_LENGTH ==> bytes_mut_content(*old(stream)).len() + spec_len_len(
            len as nat,
        ) <= isize::MAX,
    ensures
        len > MAX_REMAINING_LENGTH ==> r == Err::<usize, Error>(Error::PayloadTooLong)
            && bytes_mut_content(*final(stream)) == bytes_mut_content(*old(stream)),
        len <= MAX_REMAINING_LENGTH ==> r == Ok::<usize, Error>(spec_len_len(len as nat) as usize)
            && bytes_mut_content(*final(stream)) == bytes_mut_content(*old(stream))
            + spec_encode_length(len as nat),
{
    if len > 268_435_455 {
        return Err(Error::PayloadTooLong);
    }
    let mut done = false;
    let mut x: usize = len;
    let mut count: usize = 0;

    while !done
        invariant
            count <= 4,
            x <= MAX_REMAINING_LENGTH,
            bytes_mut_content(*old(stream)).len() + spec_len_len(len as nat) <= isize::MAX,
            bytes_mut_content(*stream).len() == bytes_mut_content(*old(stream)).len() + count,
            !done ==> count + spec_len_len(x as nat) == spec_len_len(len as nat),
            !done ==> bytes_mut_content(*stream) + spec_encode_length(x as nat)
                == bytes_mut_content(*old(stream)) + spec_encode_length(len as nat),
            done ==> count == spec_len_len(len as nat),
            done ==> bytes_mut_content(*stream) == bytes_mut_content(*old(stream))
                + spec_encode_length(len as nat),
        decreases (if done { 0int } else { 1 + x as int }),
    {
        let ghost before = bytes_mut_content(*stream);
        let ghost value = x as nat;
        let mut byte: u8 = (x % 128) as u8;
        x /= 128;
        if x > 0 {
            proof {
                assert(byte | 128 == byte + 128) by (bit_vector)
                    requires
                        byte < 128,
                ;
            }
            byte |= 128;
        }
        bytes_mut_put_u8(stream, byte);
        count += 1;
        done = x == 0;
        proof {
            if value < 128 {
                assert(spec_encode_length(value) == seq![byte]);
                assert(before + seq![byte] == before.push(byte));
            } else {
                assert(spec_encode_length(value) == seq![byte] + spec_encode_length(x as nat));
                assert(before + (seq![byte] + spec_encode_length(x as nat)) == before.push(byte)
                    + spec_encode_length(x as nat));
            }
        }
    }
    Ok(count)
}

} // verus!
