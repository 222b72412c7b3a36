//! The packets of the status phase.

use vstd::prelude::*;
use vstd::string::*;
use super::dispatch::{OutboundModel, OutboundPacket};
use super::endian::{
    lemma_be_value_bound, lemma_byte_weights, lemma_signed_bytes_round_trip, BigEndianNumeric,
};
use super::reader::{PacketReader, SliceReader};
use super::trusted::{json_quote, json_string_literal};
use super::wire::{frame_written, spec_encode_string};
use super::writer::PacketWriter;
use super::{ClientPacket, DecodeError, EncodeError, GenericPacket, ServerPacket};
use super::super::ServerState;

verus! {

/// The client asks what the server is.
#[derive(Debug)]
pub struct StatusRequestPacket {}

/// The client asks for its eight bytes back.
#[derive(Debug)]
pub struct PingPacket {
    pub payload: i64,
}

/// The answer to a `StatusRequestPacket`: a JSON document.
#[derive(Debug)]
pub struct StatusRespondPacket {
    pub responce: String,
}

/// The fields of a `StatusRespondPacket` as values.
pub struct StatusRespondModel {
    pub responce: Seq<char>,
}

/// The answer to a `PingPacket`.
#[derive(Debug)]
pub struct PongPacket {
    pub payload: i64,
}

impl View for StatusRespondPacket {
    type V = StatusRespondModel;

    open spec fn view(&self) -> StatusRespondModel {
        StatusRespondModel { responce: self.responce@ }
    }
}

/// The status document around the description `quoted_motd`, which is
/// already a JSON string literal.
pub open spec fn spec_status_document(quoted_motd: Seq<char>) -> Seq<char> {
    "{\"version\":{\"name\":\"1.18.2\",\"protocol\":758},\"players\":{\"max\":1,\"online\":0,\"sample\":[]},\"description\":{\"text\":"@
        + quoted_motd + "}}"@
}

/// Builds the status document around the description `quoted_motd`, which
/// is already a JSON string literal.
pub fn status_document(quoted_motd: &str) -> (doc: String)
    ensures
        doc@ == spec_status_document(quoted_motd@),
{
    let mut doc = String::from_str(
        "{\"version\":{\"name\":\"1.18.2\",\"protocol\":758},\"players\":{\"max\":1,\"online\":0,\"sample\":[]},\"description\":{\"text\":",
    );
    doc.append(quoted_motd);
    doc.append("}}");
    doc
}

/// The ping that the payload `data` holds: its first eight bytes as a
/// signed number.
pub open spec fn spec_parse_ping(data: Seq<u8>) -> Result<PingPacket, DecodeError> {
    if data.len() >= 8 {
        Ok(PingPacket { payload: i64::spec_from_be_bytes(data.take(8)) })
    } else {
        Err(DecodeError::Truncated)
    }
}

impl StatusRequestPacket {
    /// A status request. It has no fields: its payload is not read.
    pub fn new() -> (p: Self)
        ensures
            p == (StatusRequestPacket {  }),
    {
        Self {  }
    }
}

impl ServerPacket for StatusRequestPacket {
    /// A status request is answered by the status document, with the
    /// configured description in it.
    open spec fn spec_handle(&self, server: &ServerState) -> Seq<OutboundModel> {
        seq![
            OutboundModel::StatusResponse(
                StatusRespondModel {
                    responce: spec_status_document(json_string_literal(server.config.motd@)),
                },
            ),
        ]
    }

    fn handle<'a>(&self, server: &'a ServerState) -> (replies: Vec<OutboundPacket<'a>>) {
        let quoted = json_quote(server.config.motd.as_str());
        let responce = status_document(quoted.as_str());
        let mut replies: Vec<OutboundPacket<'a>> = Vec::new();
        replies.push(OutboundPacket::StatusResponse(StatusRespondPacket { responce }));
        replies
    }
}

impl PingPacket {
    /// Reads the payload of `packet` as a ping.
    pub fn new(packet: GenericPacket) -> (r: Result<Self, DecodeError>)
        ensures
            r == spec_parse_ping(packet.data@),
    {
        let mut data = SliceReader::new(packet.data.as_slice());
        let payload = data.read_be::<i64, 8>()?;
        Ok(Self { payload })
    }
}

impl ServerPacket for PingPacket {
    /// A ping is answered by a pong with the same number.
    open spec fn spec_handle(&self, server: &ServerState) -> Seq<OutboundModel> {
        seq![OutboundModel::Pong(PongPacket { payload: self.payload })]
    }

    fn handle<'a>(&self, server: &'a ServerState) -> (replies: Vec<OutboundPacket<'a>>) {
        let mut replies: Vec<OutboundPacket<'a>> = Vec::new();
        replies.push(OutboundPacket::Pong(PongPacket { payload: self.payload }));
        replies
    }
}

impl StatusRespondPacket {
    /// The payload: the document as a string.
    pub open spec fn spec_payload(&self) -> Seq<u8> {
        spec_encode_string(self.responce@)
    }
}

impl ClientPacket for StatusRespondPacket {
    open spec fn packet_id(&self) -> i32 {
        0x00
    }

    open spec fn is_payload(&self, payload: Seq<u8>) -> bool {
        payload == self.spec_payload()
    }

    fn write(&self, w: &mut Vec<u8>) -> (r: Result<(), EncodeError>)
        ensures
            frame_written(old(w)@, final(w)@, r, 0x00, self.spec_payload()),
    {
        if self.responce.as_str().as_bytes().len() > 0x7fff_ffff {
            return Err(EncodeError::TooLarge);
        }
        let mut p = PacketWriter::new(0x00);
        p.write_string(self.responce.as_str());
        let r = p.export(w);
        proof {
            if r is Ok {
                assert(self.is_payload(self.spec_payload()));
            }
        }
        r
    }
}

impl PongPacket {
    /// The payload: the number in eight bytes.
    pub open spec fn spec_payload(&self) -> Seq<u8> {
        self.payload.spec_to_be_bytes()
    }
}

impl ClientPacket for PongPacket {
    open spec fn packet_id(&self) -> i32 {
        0x01
    }

    open spec fn is_payload(&self, payload: Seq<u8>) -> bool {
        payload == self.spec_payload()
    }

    fn write(&self, w: &mut Vec<u8>) -> (r: Result<(), EncodeError>)
        ensures
            frame_written(old(w)@, final(w)@, r, 0x01, self.spec_payload()),
            r is Ok,
    {
        let mut p = PacketWriter::new(0x01);
        p.write_be(self.payload);
        let r = p.export(w);
        proof {
            i64::lemma_be_round_trip(self.payload);
            assert(self.is_payload(self.spec_payload()));
        }
        r
    }
}

/// The pong that answers a ping carries the eight bytes the ping came with.
pub proof fn lemma_pong_echoes_ping(data: Seq<u8>)
    requires
        data.len() >= 8,
    ensures
        spec_parse_ping(data) is Ok,
        (PongPacket { payload: spec_parse_ping(data).unwrap().payload }).spec_payload()
            == data.take(8),
{
    let bytes = data.take(8);
    lemma_signed_bytes_round_trip(bytes);
    lemma_be_value_bound(bytes);
    lemma_byte_weights();
}

} // verus!
