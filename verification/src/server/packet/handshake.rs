//! The packet that opens a connection.

use vstd::prelude::*;
use super::endian::BigEndianNumeric;
use super::reader::{PacketReader, SliceReader};
use super::varint::spec_decode_varint;
use super::wire::spec_decode_string;
use super::{DecodeError, GenericPacket, ServerPacket};
use super::dispatch::{OutboundModel, OutboundPacket};
use super::super::ServerState;

verus! {

/// The first packet of a connection: what the client speaks, whom it
/// thinks it is talking to, and which phase it asks for.
#[derive(Debug)]
pub struct HandshakePacket {
    pub proto: i32,
    pub address: String,
    pub port: u16,
    pub next: i32,
}

/// The fields of a `HandshakePacket` as values.
pub struct HandshakeModel {
    pub proto: i32,
    pub address: Seq<char>,
    pub port: u16,
    pub next: i32,
}

impl View for HandshakePacket {
    type V = HandshakeModel;

    open spec fn view(&self) -> HandshakeModel {
        HandshakeModel {
            proto: self.proto,
            address: self.address@,
            port: self.port,
            next: self.next,
        }
    }
}

/// The handshake that the payload `data` holds: the protocol version, the
/// address as a string, the port in two bytes, the phase asked for. Bytes
/// after the last field are ignored.
pub open spec fn spec_parse_handshake(data: Seq<u8>) -> Result<HandshakeModel, DecodeError> {
    match spec_decode_varint(data) {
        Err(e) => Err(e),
        Ok((proto, n)) => match spec_decode_string(data.skip(n as int)) {
            Err(e) => Err(e),
            Ok((address, m)) => {
                let rest = data.skip(n as int).skip(m as int);
                if rest.len() < 2 {
                    Err(DecodeError::Truncated)
                } else {
                    match spec_decode_varint(rest.skip(2)) {
                        Err(e) => Err(e),
                        Ok((next, _)) => Ok(
                            HandshakeModel {
                                proto,
                                address,
                                port: u16::spec_from_be_bytes(rest.take(2)),
                                next,
                            },
                        ),
                    }
                }
            },
        },
    }
}

impl HandshakePacket {
    /// Reads the payload of `packet` as a handshake.
    pub fn new(packet: GenericPacket) -> (r: Result<Self, DecodeError>)
        ensures
            spec_parse_handshake(packet.data@) == match r {
                Ok(p) => Ok::<HandshakeModel, DecodeError>(p@),
                Err(e) => Err(e),
            },
    {
        let mut data = SliceReader::new(packet.data.as_slice());
        let proto = data.read_varint()?;
        let address = data.read_string()?;
        let port = data.read_be::<u16, 2>()?;
        let next = data.read_varint()?;
        Ok(Self { proto, address, port, next })
    }
}

impl ServerPacket for HandshakePacket {
    /// A handshake is answered by nothing: the change of phase is its
    /// only effect.
    open spec fn spec_handle(&self, server: &ServerState) -> Seq<OutboundModel> {
        Seq::empty()
    }

    fn handle<'a>(&self, server: &'a ServerState) -> (replies: Vec<OutboundPacket<'a>>) {
        Vec::new()
    }
}

} // verus!
