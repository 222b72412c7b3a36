//! Reading values off a run of bytes.

use vstd::prelude::*;
use vstd::slice::{slice_subrange, slice_to_vec};
use super::endian::BigEndianNumeric;
use super::trusted::string_from_utf8;
use super::varint::{decode_varint, lemma_varint_outcome, spec_decode_varint};
use super::wire::{spec_decode_frame, spec_decode_string};
use super::dispatch::{spec_read_packet, InboundPacket};
use super::super::client::State;
use super::{DecodeError, GenericPacket};

verus! {

/// What a read leaves behind and hands out, given what the input holds:
/// where `expected` is a value and a length, the read hands out the value
/// and moves past that many bytes; where it is an error, the read reports
/// that error and consumes nothing.
pub open spec fn read_as<V>(
    before: Seq<u8>,
    after: Seq<u8>,
    outcome: Result<V, DecodeError>,
    expected: Result<(V, nat), DecodeError>,
) -> bool {
    match expected {
        Ok((v, n)) => outcome == Ok::<V, DecodeError>(v) && n <= before.len() && after
            =~= before.skip(n as int),
        Err(e) => outcome == Err::<V, DecodeError>(e) && after =~= before,
    }
}

/// The first `size` bytes of `input`, if it has that many.
pub open spec fn spec_take_bytes(input: Seq<u8>, size: nat) -> Result<(Seq<u8>, nat), DecodeError> {
    if size <= input.len() {
        Ok((input.take(size as int), size))
    } else {
        Err(DecodeError::Truncated)
    }
}

/// The value that the first `size` bytes of `input` stand for, most
/// significant byte first.
pub open spec fn spec_take_be<T: BigEndianNumeric<S>, const S: usize>(input: Seq<u8>) -> Result<
    (T, nat),
    DecodeError,
> {
    if S <= input.len() {
        Ok((T::spec_from_be_bytes(input.take(S as int)), S as nat))
    } else {
        Err(DecodeError::Truncated)
    }
}

/// A source of bytes that values of the wire format are read from. A read
/// that fails consumes nothing.
pub trait PacketReader: Sized {
    /// The bytes that have not been read yet.
    spec fn unread(&self) -> Seq<u8>;

    /// Reads exactly `size` bytes.
    fn read_bytes(&mut self, size: usize) -> (r: Result<Vec<u8>, DecodeError>)
        ensures
            read_as(
                old(self).unread(),
                final(self).unread(),
                match r {
                    Ok(bytes) => Ok(bytes@),
                    Err(e) => Err(e),
                },
                spec_take_bytes(old(self).unread(), size as nat),
            ),
    ;

    /// Reads a fixed-width value in network byte order.
    fn read_be<T: BigEndianNumeric<S>, const S: usize>(&mut self) -> (r: Result<T, DecodeError>)
        ensures
            read_as(
                old(self).unread(),
                final(self).unread(),
                r,
                spec_take_be::<T, S>(old(self).unread()),
            ),
    ;

    /// Reads a variable-length integer.
    fn read_varint(&mut self) -> (r: Result<i32, DecodeError>)
        ensures
            read_as(
                old(self).unread(),
                final(self).unread(),
                r,
                match spec_decode_varint(old(self).unread()) {
                    Ok((v, n)) => Ok((v, n)),
                    Err(e) => Err(e),
                },
            ),
    ;

    /// Reads a variable-length integer and says how many bytes it took.
    fn read_varint_with_size(&mut self) -> (r: Result<(i32, usize), DecodeError>)
        ensures
            read_as(
                old(self).unread(),
                final(self).unread(),
                match r {
                    Ok((v, n)) => Ok((v, n as nat)),
                    Err(e) => Err(e),
                },
                match spec_decode_varint(old(self).unread()) {
                    Ok((v, n)) => Ok(((v, n), n)),
                    Err(e) => Err(e),
                },
            ),
    ;

    /// Reads a length-prefixed string.
    fn read_string(&mut self) -> (r: Result<String, DecodeError>)
        ensures
            read_as(
                old(self).unread(),
                final(self).unread(),
                match r {
                    Ok(s) => Ok(s@),
                    Err(e) => Err(e),
                },
                spec_decode_string(old(self).unread()),
            ),
    ;

    /// Reads one frame: its length, then its identifier and its payload.
    fn read_generic_packet(&mut self) -> (r: Result<GenericPacket, DecodeError>)
        ensures
            read_as(
                old(self).unread(),
                final(self).unread(),
                match r {
                    Ok(p) => Ok((p.typ, p.data@)),
                    Err(e) => Err(e),
                },
                match spec_decode_frame(old(self).unread()) {
                    Ok((typ, data, n)) => Ok(((typ, data), n)),
                    Err(e) => Err(e),
                },
            ),
    ;

    /// Reads one frame as a request in the phase `state`, and moves `state`
    /// on where the request is a handshake. A failed read leaves `state` as
    /// it was.
    fn read_packet(&mut self, state: &mut State) -> (r: Result<InboundPacket, DecodeError>)
        ensures
            match spec_read_packet(old(self).unread(), *old(state)) {
                Ok((request, next, n)) => {
                    &&& r is Ok
                    &&& r.unwrap()@ == request
                    &&& *final(state) == next
                    &&& n <= old(self).unread().len()
                    &&& final(self).unread() =~= old(self).unread().skip(n as int)
                },
                Err(e) => {
                    &&& r == Err::<InboundPacket, DecodeError>(e)
                    &&& *final(state) == *old(state)
                    &&& final(self).unread() =~= old(self).unread()
                },
            },
    ;
}

/// A reader over bytes that are already in memory.
pub struct SliceReader<'a> {
    /// The bytes that have not been read yet.
    pub bytes: &'a [u8],
}

impl<'a> SliceReader<'a> {
    /// A reader that starts at the first byte of `bytes`.
    pub fn new(bytes: &'a [u8]) -> (reader: Self)
        ensures
            reader.bytes@ == bytes@,
    {
        Self { bytes }
    }
}

impl<'a> PacketReader for SliceReader<'a> {
    open spec fn unread(&self) -> Seq<u8> {
        self.bytes@
    }

    fn read_bytes(&mut self, size: usize) -> (r: Result<Vec<u8>, DecodeError>) {
        if size > self.bytes.len() {
            return Err(DecodeError::Truncated);
        }
        let out = slice_to_vec(slice_subrange(self.bytes, 0, size));
        self.bytes = slice_subrange(self.bytes, size, self.bytes.len());
        Ok(out)
    }

    fn read_be<T: BigEndianNumeric<S>, const S: usize>(&mut self) -> (r: Result<T, DecodeError>) {
        let bytes = match self.read_bytes(S) {
            Ok(bytes) => bytes,
            Err(e) => {
                return Err(e);
            },
        };
        let mut field: [u8; S] = [0u8; S];
        let mut i: usize = 0;
        while i < S
            invariant
                i <= S,
                bytes@.len() == S,
                field@.len() == S,
                field@.take(i as int) == bytes@.take(i as int),
            decreases S - i,
        {
            field[i] = bytes[i];
            i = i + 1;
        }
        assert(field@ == bytes@) by {
            assert(bytes@.take(S as int) == bytes@);
        }
        Ok(T::_from_be_bytes(field))
    }

    fn read_varint(&mut self) -> (r: Result<i32, DecodeError>) {
        match self.read_varint_with_size() {
            Ok((v, _)) => Ok(v),
            Err(e) => Err(e),
        }
    }

    fn read_varint_with_size(&mut self) -> (r: Result<(i32, usize), DecodeError>) {
        proof {
            lemma_varint_outcome(self.bytes@);
        }
        match decode_varint(self.bytes) {
            Ok((v, n)) => {
                self.bytes = slice_subrange(self.bytes, n, self.bytes.len());
                Ok((v, n))
            },
            Err(e) => Err(e),
        }
    }

    fn read_string(&mut self) -> (r: Result<String, DecodeError>) {
        let start = self.bytes;
        let size = match self.read_varint() {
            Ok(size) => size,
            Err(e) => {
                return Err(e);
            },
        };
        if size < 0 {
            self.bytes = start;
            return Err(DecodeError::Truncated);
        }
        let body = match self.read_bytes(size as usize) {
            Ok(body) => body,
            Err(e) => {
                self.bytes = start;
                return Err(e);
            },
        };
        proof {
            let n = spec_decode_varint(start@).unwrap().1 as int;
            assert(start@.skip(n).take(size as int) == start@.subrange(n, n + size));
        }
        match string_from_utf8(body) {
            Some(s) => Ok(s),
            None => {
                self.bytes = start;
                Err(DecodeError::InvalidUtf8)
            },
        }
    }

    fn read_generic_packet(&mut self) -> (r: Result<GenericPacket, DecodeError>) {
        let start = self.bytes;
        let size = match self.read_varint() {
            Ok(size) => size,
            Err(e) => {
                return Err(e);
            },
        };
        if size < 0 {
            self.bytes = start;
            return Err(DecodeError::Truncated);
        }
        let body = match self.read_bytes(size as usize) {
            Ok(body) => body,
            Err(e) => {
                self.bytes = start;
                return Err(e);
            },
        };
        proof {
            let n = spec_decode_varint(start@).unwrap().1 as int;
            assert(start@.skip(n).take(size as int) == start@.subrange(n, n + size));
        }
        let mut inner = SliceReader::new(body.as_slice());
        match inner.read_varint() {
            Ok(typ) => {
                let data = slice_to_vec(inner.bytes);
                Ok(GenericPacket { typ, data })
            },
            Err(e) => {
                self.bytes = start;
                Err(e)
            },
        }
    }

    fn read_packet(&mut self, state: &mut State) -> (r: Result<InboundPacket, DecodeError>) {
        let start = self.bytes;
        let packet = match self.read_generic_packet() {
            Ok(packet) => packet,
            Err(e) => {
                return Err(e);
            },
        };
        match InboundPacket::from_frame(packet, state) {
            Ok(request) => Ok(request),
            Err(e) => {
                self.bytes = start;
                Err(e)
            },
        }
    }
}

} // verus!
