//! Packets and the codec of the wire format.

use vstd::prelude::*;

use super::ServerState;
use dispatch::{reply_models, OutboundModel, OutboundPacket};
use wire::frame_written;

pub mod dispatch;
pub mod endian;
pub mod handshake;
pub mod login;
pub mod reader;
pub mod status;
pub mod trusted;
pub mod varint;
pub mod wire;
pub mod writer;

verus! {

/// Why a run of bytes could not be read as what was asked for.
#[derive(Debug, Clone, Copy, PartialEq, Eq, Structural)]
pub enum DecodeError {
    /// The input ends before the value does. A negative length prefix asks
    /// for more than any input holds and is reported the same way.
    Truncated,
    /// Five bytes in a row ask for a continuation: no 32-bit value is that long.
    MalformedVarInt,
    /// The bytes of a string are not UTF-8.
    InvalidUtf8,
}

/// Why a packet could not be put on the wire.
#[derive(Debug, Clone, Copy, PartialEq, Eq, Structural)]
pub enum EncodeError {
    /// A length does not fit its 32-bit prefix.
    TooLarge,
    /// A structured document could not be serialized.
    Document,
}

/// A frame as it came off the wire: the packet identifier and the payload,
/// not yet read as any packet.
#[derive(Debug, Clone)]
pub struct GenericPacket {
    pub typ: i32,
    pub data: Vec<u8>,
}

/// A frame whose identifier names no packet in the phase it came in.
#[derive(Debug)]
pub struct UnknownPacket;

/// A request from the client, and what the server sends back for it.
pub trait ServerPacket {
    /// The replies to the request, in the order they are sent.
    spec fn spec_handle(&self, server: &ServerState) -> Seq<OutboundModel>;

    /// Answers the request. The replies go to the connection that the
    /// request came from, in order.
    fn handle<'a>(&self, server: &'a ServerState) -> (replies: Vec<OutboundPacket<'a>>)
        ensures
            reply_models(replies@) == self.spec_handle(server),
    ;
}

/// A packet that is sent to the client.
pub trait ClientPacket {
    /// The identifier the packet travels under.
    spec fn packet_id(&self) -> i32;

    /// Whether `payload` is a serialization of the fields of the packet.
    spec fn is_payload(&self, payload: Seq<u8>) -> bool;

    /// Appends the packet to `w` as one frame. On failure `w` is left as
    /// it was.
    fn write(&self, w: &mut Vec<u8>) -> (r: Result<(), EncodeError>)
        ensures
            match r {
                Ok(()) => exists|payload: Seq<u8>|
                    self.is_payload(payload) && frame_written(
                        old(w)@,
                        final(w)@,
                        r,
                        self.packet_id(),
                        payload,
                    ),
                Err(_) => final(w)@ == old(w)@,
            },
    ;
}

impl ServerPacket for UnknownPacket {
    /// An unknown request is answered by nothing.
    open spec fn spec_handle(&self, server: &ServerState) -> Seq<OutboundModel> {
        Seq::empty()
    }

    fn handle<'a>(&self, server: &'a ServerState) -> (replies: Vec<OutboundPacket<'a>>) {
        Vec::new()
    }
}

} // verus!
