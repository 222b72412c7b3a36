//! Building an outgoing packet.

use vstd::prelude::*;
use vstd::utf8::encode_utf8;
use quartz_nbt::NbtCompound;
use super::endian::BigEndianNumeric;
use super::trusted::nbt_to_bytes;
use super::varint::{encode_varint, lemma_varint_round_trip, spec_encode_varint};
use super::wire::{frame_written, spec_encode_string};
use super::EncodeError;

verus! {

/// Appends `bytes` to `out`.
pub fn append_bytes(out: &mut Vec<u8>, bytes: &[u8])
    ensures
        final(out)@ == old(out)@ + bytes@,
{
    let mut i: usize = 0;
    while i < bytes.len()
        invariant
            i <= bytes.len(),
            out@ == old(out)@ + bytes@.take(i as int),
        decreases bytes.len() - i,
    {
        out.push(bytes[i]);
        i = i + 1;
    }
}

/// An outgoing packet under construction: its identifier and the payload
/// written so far.
pub struct PacketWriter {
    pub typ: i32,
    pub buffer: Vec<u8>,
}

impl PacketWriter {
    /// A packet with the identifier `typ` and an empty payload.
    pub fn new(typ: i32) -> (p: Self)
        ensures
            p.typ == typ,
            p.buffer@ == Seq::<u8>::empty(),
    {
        Self { typ, buffer: Vec::new() }
    }

    /// Appends `d` in network byte order.
    pub fn write_be<T: BigEndianNumeric<S>, const S: usize>(&mut self, d: T)
        ensures
            final(self).typ == old(self).typ,
            final(self).buffer@ == old(self).buffer@ + d.spec_to_be_bytes(),
    {
        let bytes = d._to_be_bytes();
        append_bytes(&mut self.buffer, bytes.as_slice());
    }

    /// Appends `d` as a variable-length integer.
    pub fn write_varint(&mut self, d: i32)
        ensures
            final(self).typ == old(self).typ,
            final(self).buffer@ == old(self).buffer@ + spec_encode_varint(d),
    {
        let bytes = encode_varint(d);
        append_bytes(&mut self.buffer, bytes.as_slice());
    }

    /// Appends `bytes` as they are.
    pub fn write_bytes(&mut self, bytes: &[u8])
        ensures
            final(self).typ == old(self).typ,
            final(self).buffer@ == old(self).buffer@ + bytes@,
    {
        append_bytes(&mut self.buffer, bytes);
    }

    /// Serializes the document `nbt` under the root name `name` and appends
    /// it. What the bytes are is up to the document encoder; on failure
    /// nothing is appended.
    pub fn write_nbt_compound(&mut self, nbt: &NbtCompound, name: Option<&str>) -> (r: Result<
        (),
        EncodeError,
    >)
        ensures
            final(self).typ == old(self).typ,
            match r {
                Ok(()) => exists|doc: Seq<u8>| final(self).buffer@ == old(self).buffer@ + doc,
                Err(e) => e == EncodeError::Document && final(self).buffer@ == old(self).buffer@,
            },
    {
        match nbt_to_bytes(nbt, name) {
            Ok(doc) => {
                self.write_bytes(doc.as_slice());
                Ok(())
            },
            Err(_) => Err(EncodeError::Document),
        }
    }

    /// Appends `d` as a length-prefixed string.
    pub fn write_string(&mut self, d: &str)
        requires
            encode_utf8(d@).len() <= i32::MAX,
        ensures
            final(self).typ == old(self).typ,
            final(self).buffer@ == old(self).buffer@ + spec_encode_string(d@),
    {
        let bytes = d.as_bytes();
        self.write_varint(bytes.len() as i32);
        append_bytes(&mut self.buffer, bytes);
    }

    /// Appends the packet to `w` as one frame: the length of what follows,
    /// the identifier, the payload. Where the length does not fit its
    /// prefix, `w` is left as it was.
    pub fn export(&mut self, w: &mut Vec<u8>) -> (r: Result<(), EncodeError>)
        ensures
            final(self).typ == old(self).typ,
            final(self).buffer@ == old(self).buffer@,
            frame_written(old(w)@, final(w)@, r, old(self).typ, old(self).buffer@),
    {
        let typ = encode_varint(self.typ);
        proof {
            lemma_varint_round_trip(self.typ, Seq::empty());
        }
        if self.buffer.len() > 0x7fff_ffff - typ.len() {
            return Err(EncodeError::TooLarge);
        }
        let size: i32 = (typ.len() + self.buffer.len()) as i32;
        let prefix = encode_varint(size);
        append_bytes(w, prefix.as_slice());
        append_bytes(w, typ.as_slice());
        append_bytes(w, self.buffer.as_slice());
        Ok(())
    }
}

} // verus!
