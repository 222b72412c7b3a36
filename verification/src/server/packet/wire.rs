//! Strings and frames on the wire.
//!
//! A string is the length of its UTF-8 form as a variable-length integer,
//! then the UTF-8 bytes. A frame is a length, a packet identifier and a
//! payload; the length counts the bytes of the identifier and of the payload.

use vstd::prelude::*;
use vstd::utf8::*;
use super::varint::{
    decode_varint, lemma_varint_outcome, lemma_varint_round_trip, spec_decode_varint,
    spec_encode_varint,
};
use super::{DecodeError, EncodeError};

verus! {

/// The bytes that stand for `text` on the wire. The UTF-8 form of `text`
/// has to fit the length prefix: at most `i32::MAX` bytes.
pub open spec fn spec_encode_string(text: Seq<char>) -> Seq<u8> {
    let body = encode_utf8(text);
    spec_encode_varint(body.len() as i32) + body
}

/// The string at the start of `input` and the number of bytes it takes.
pub open spec fn spec_decode_string(input: Seq<u8>) -> Result<(Seq<char>, nat), DecodeError> {
    match spec_decode_varint(input) {
        Err(e) => Err(e),
        Ok((size, n)) => {
            if size < 0 || input.len() - n < size {
                Err(DecodeError::Truncated)
            } else {
                let body = input.subrange(n as int, n + size);
                if valid_utf8(body) {
                    Ok((decode_utf8(body), (n + size) as nat))
                } else {
                    Err(DecodeError::InvalidUtf8)
                }
            }
        },
    }
}

/// The frame that carries `payload` under the identifier `typ`, where the
/// two together fit the length prefix.
pub open spec fn spec_encode_frame(typ: i32, payload: Seq<u8>) -> Option<Seq<u8>> {
    let id = spec_encode_varint(typ);
    if id.len() + payload.len() <= i32::MAX {
        Some(spec_encode_varint((id.len() + payload.len()) as i32) + id + payload)
    } else {
        None
    }
}

/// The frame at the start of `input`: its identifier, its payload and the
/// number of bytes it takes. The body of the frame is cut off first; the
/// identifier is then read inside the body.
pub open spec fn spec_decode_frame(input: Seq<u8>) -> Result<(i32, Seq<u8>, nat), DecodeError> {
    match spec_decode_varint(input) {
        Err(e) => Err(e),
        Ok((size, n)) => {
            if size < 0 || input.len() - n < size {
                Err(DecodeError::Truncated)
            } else {
                let body = input.subrange(n as int, n + size);
                match spec_decode_varint(body) {
                    Err(e) => Err(e),
                    Ok((typ, used)) => Ok((typ, body.skip(used as int), (n + size) as nat)),
                }
            }
        },
    }
}

/// How many bytes have to be read before the frame that starts `input` can
/// be complete: none where it is complete, one where its length is not yet
/// known, and else what its body still lacks.
pub open spec fn spec_missing_bytes(input: Seq<u8>) -> Result<nat, DecodeError> {
    match spec_decode_varint(input) {
        Ok((size, n)) => {
            if size < 0 {
                Err(DecodeError::Truncated)
            } else if input.len() - n >= size {
                Ok(0)
            } else {
                Ok((n + size - input.len()) as nat)
            }
        },
        Err(DecodeError::Truncated) => Ok(1),
        Err(e) => Err(e),
    }
}

/// What writing a frame does to the bytes written so far: the frame is
/// appended where the payload fits it, and nothing is where it does not.
pub open spec fn frame_written(
    before: Seq<u8>,
    after: Seq<u8>,
    r: Result<(), EncodeError>,
    typ: i32,
    payload: Seq<u8>,
) -> bool {
    match spec_encode_frame(typ, payload) {
        Some(frame) => r is Ok && after =~= before + frame,
        None => r == Err::<(), EncodeError>(EncodeError::TooLarge) && after =~= before,
    }
}

/// A string that was encoded is read back unchanged, whatever bytes follow,
/// and reading takes exactly the bytes of the encoding.
pub proof fn lemma_string_round_trip(text: Seq<char>, rest: Seq<u8>)
    requires
        encode_utf8(text).len() <= i32::MAX,
    ensures
        spec_decode_string(spec_encode_string(text) + rest) == Ok::<(Seq<char>, nat), DecodeError>(
            (text, spec_encode_string(text).len()),
        ),
{
    let body = encode_utf8(text);
    let size = body.len() as i32;
    let prefix = spec_encode_varint(size);
    let input = spec_encode_string(text) + rest;
    assert(input == prefix + (body + rest));
    lemma_varint_round_trip(size, body + rest);
    assert(input.subrange(prefix.len() as int, prefix.len() + size) == body);
    encode_utf8_valid_utf8(text);
    encode_utf8_decode_utf8(text);
}

/// Decoding an encoded frame gives the identifier and the payload back,
/// whatever bytes follow, and takes exactly the bytes of the frame.
pub proof fn lemma_frame_round_trip(typ: i32, payload: Seq<u8>, rest: Seq<u8>)
    requires
        spec_encode_frame(typ, payload) is Some,
    ensures
        spec_decode_frame(spec_encode_frame(typ, payload).unwrap() + rest) == Ok::<
            (i32, Seq<u8>, nat),
            DecodeError,
        >((typ, payload, spec_encode_frame(typ, payload).unwrap().len())),
{
    let id = spec_encode_varint(typ);
    let size = (id.len() + payload.len()) as i32;
    let prefix = spec_encode_varint(size);
    let input = spec_encode_frame(typ, payload).unwrap() + rest;
    assert(input == prefix + (id + payload + rest));
    lemma_varint_round_trip(size, id + payload + rest);
    let body = input.subrange(prefix.len() as int, prefix.len() + size);
    assert(body == id + payload);
    lemma_varint_round_trip(typ, payload);
    assert(body.skip(id.len() as int) == payload);
}

/// A frame that is cut short is reported as truncated: no proper prefix of
/// an encoded frame decodes to a frame or to another error.
pub proof fn lemma_frame_cut_short(typ: i32, payload: Seq<u8>, k: nat)
    requires
        spec_encode_frame(typ, payload) is Some,
        k < spec_encode_frame(typ, payload).unwrap().len(),
    ensures
        spec_decode_frame(spec_encode_frame(typ, payload).unwrap().take(k as int)) == Err::<
            (i32, Seq<u8>, nat),
            DecodeError,
        >(DecodeError::Truncated),
{
    let id = spec_encode_varint(typ);
    let size = (id.len() + payload.len()) as i32;
    let prefix = spec_encode_varint(size);
    let frame = spec_encode_frame(typ, payload).unwrap();
    let cut = frame.take(k as int);
    lemma_varint_round_trip(size, Seq::empty());
    lemma_varint_outcome(prefix);
    if k < prefix.len() {
        lemma_varint_outcome(cut);
    } else {
        let tail = cut.skip(prefix.len() as int);
        assert(cut == prefix + tail);
        lemma_varint_round_trip(size, tail);
    }
}

/// Where bytes are missing, or the length is refused, no frame is decoded:
/// decoding reports the input as truncated, or the length as refused.
pub proof fn lemma_missing_bytes_agrees(input: Seq<u8>)
    ensures
        match spec_missing_bytes(input) {
            Ok(k) => k > 0 ==> spec_decode_frame(input) == Err::<(i32, Seq<u8>, nat), DecodeError>(
                DecodeError::Truncated,
            ),
            Err(e) => spec_decode_frame(input) == Err::<(i32, Seq<u8>, nat), DecodeError>(e),
        },
{
}

/// Says how many bytes to read next for the frame that starts `input`: the
/// caller reads that many, appends them to `input` and asks again, until
/// the answer is zero and `input` holds the whole frame.
pub fn missing_bytes(input: &[u8]) -> (r: Result<usize, DecodeError>)
    ensures
        spec_missing_bytes(input@) == match r {
            Ok(k) => Ok::<nat, DecodeError>(k as nat),
            Err(e) => Err(e),
        },
{
    proof {
        lemma_varint_outcome(input@);
    }
    match decode_varint(input) {
        Ok((size, n)) => {
            if size < 0 {
                Err(DecodeError::Truncated)
            } else if input.len() - n >= size as usize {
                Ok(0)
            } else {
                Ok(size as usize - (input.len() - n))
            }
        },
        Err(DecodeError::Truncated) => Ok(1),
        Err(e) => Err(e),
    }
}

} // verus!
