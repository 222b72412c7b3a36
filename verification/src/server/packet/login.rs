//! The packets of the login phase.

use vstd::prelude::*;
use vstd::utf8::encode_utf8;
use quartz_nbt::NbtCompound;
use super::dispatch::{OutboundModel, OutboundPacket};
use super::endian::BigEndianNumeric;
use super::reader::{PacketReader, SliceReader};
use super::trusted::nbt_to_bytes;
use super::varint::{lemma_varint_round_trip, spec_encode_varint};
use super::wire::{frame_written, spec_decode_string, spec_encode_string};
use super::writer::PacketWriter;
use super::{ClientPacket, DecodeError, EncodeError, GenericPacket, ServerPacket};
use super::super::ServerState;

verus! {

/// The client names the player it logs in as.
#[derive(Debug)]
pub struct LoginStartPacket {
    pub player_name: String,
}

/// The fields of a `LoginStartPacket` as values.
pub struct LoginStartModel {
    pub player_name: Seq<char>,
}

/// The server accepts the login.
#[derive(Debug)]
pub struct LoginSuccessPacket {
    pub uuid: u128,
    pub player_name: String,
}

/// The fields of a `LoginSuccessPacket` as values.
pub struct LoginSuccessModel {
    pub uuid: u128,
    pub player_name: Seq<char>,
}

/// The server puts the player into a world. The two documents are borrowed
/// from the state of the server.
#[derive(Debug)]
pub struct JoinGamePacket<'a> {
    pub eid: i32,
    pub hardcore: bool,
    pub cgm: u8,
    pub pgm: i8,
    pub dim_names: Vec<String>,
    pub dim_codec: &'a NbtCompound,
    pub dimension: &'a NbtCompound,
    pub dim_current: String,
    pub seed_hash: i64,
    pub max_players: i32,
    pub view_dist: i32,
    pub sim_dist: i32,
    pub reduce_debug: bool,
    pub respawn_screen: bool,
    pub debug_world: bool,
    pub flat_world: bool,
}

/// The fields of a `JoinGamePacket` as values.
pub struct JoinGameModel {
    pub eid: i32,
    pub hardcore: bool,
    pub cgm: u8,
    pub pgm: i8,
    pub dim_names: Seq<Seq<char>>,
    pub dim_codec: NbtCompound,
    pub dimension: NbtCompound,
    pub dim_current: Seq<char>,
    pub seed_hash: i64,
    pub max_players: i32,
    pub view_dist: i32,
    pub sim_dist: i32,
    pub reduce_debug: bool,
    pub respawn_screen: bool,
    pub debug_world: bool,
    pub flat_world: bool,
}

impl View for LoginStartPacket {
    type V = LoginStartModel;

    open spec fn view(&self) -> LoginStartModel {
        LoginStartModel { player_name: self.player_name@ }
    }
}

impl View for LoginSuccessPacket {
    type V = LoginSuccessModel;

    open spec fn view(&self) -> LoginSuccessModel {
        LoginSuccessModel { uuid: self.uuid, player_name: self.player_name@ }
    }
}

impl<'a> View for JoinGamePacket<'a> {
    type V = JoinGameModel;

    open spec fn view(&self) -> JoinGameModel {
        JoinGameModel {
            eid: self.eid,
            hardcore: self.hardcore,
            cgm: self.cgm,
            pgm: self.pgm,
            dim_names: self.dim_names.deep_view(),
            dim_codec: *self.dim_codec,
            dimension: *self.dimension,
            dim_current: self.dim_current@,
            seed_hash: self.seed_hash,
            max_players: self.max_players,
            view_dist: self.view_dist,
            sim_dist: self.sim_dist,
            reduce_debug: self.reduce_debug,
            respawn_screen: self.respawn_screen,
            debug_world: self.debug_world,
            flat_world: self.flat_world,
        }
    }
}

/// The login start that the payload `data` holds: the name of the player.
/// Bytes after the name are ignored.
pub open spec fn spec_parse_login_start(data: Seq<u8>) -> Result<LoginStartModel, DecodeError> {
    match spec_decode_string(data) {
        Ok((player_name, _)) => Ok(LoginStartModel { player_name }),
        Err(e) => Err(e),
    }
}

/// The strings of `names` on the wire, one after the other.
pub open spec fn spec_encode_strings(names: Seq<Seq<char>>) -> Seq<u8>
    decreases names.len(),
{
    if names.len() == 0 {
        Seq::empty()
    } else {
        spec_encode_strings(names.drop_last()) + spec_encode_string(names.last())
    }
}

/// The packet that puts a player into the world of `server`: the one
/// dimension there is, creative mode, room for one player.
pub open spec fn spec_join_game(server: &ServerState) -> JoinGameModel {
    JoinGameModel {
        eid: 0,
        hardcore: false,
        cgm: 1,
        pgm: -1i8,
        dim_names: seq!["minecraft:ocean"@],
        dim_codec: server.dim_codec,
        dimension: server.dimension,
        dim_current: "minecraft:ocean"@,
        seed_hash: 0,
        max_players: 1,
        view_dist: 8,
        sim_dist: 8,
        reduce_debug: false,
        respawn_screen: false,
        debug_world: false,
        flat_world: true,
    }
}

impl JoinGameModel {
    /// The payload, given the serialized forms of the two documents.
    pub open spec fn payload(self, dim_codec: Seq<u8>, dimension: Seq<u8>) -> Seq<u8> {
        self.eid.spec_to_be_bytes() + self.hardcore.spec_to_be_bytes()
            + self.cgm.spec_to_be_bytes() + self.pgm.spec_to_be_bytes() + spec_encode_varint(
            self.dim_names.len() as i32,
        ) + spec_encode_strings(self.dim_names) + dim_codec + dimension + spec_encode_string(
            self.dim_current,
        ) + self.seed_hash.spec_to_be_bytes() + spec_encode_varint(self.max_players)
            + spec_encode_varint(self.view_dist) + spec_encode_varint(self.sim_dist)
            + self.reduce_debug.spec_to_be_bytes() + self.respawn_screen.spec_to_be_bytes()
            + self.debug_world.spec_to_be_bytes() + self.flat_world.spec_to_be_bytes()
    }
}

/// A string on the wire is longer than its UTF-8 form.
proof fn lemma_string_len(text: Seq<char>)
    ensures
        spec_encode_string(text).len() > encode_utf8(text).len(),
{
    lemma_varint_round_trip(encode_utf8(text).len() as i32, Seq::empty());
}

/// A list of strings on the wire takes at least a byte for each string,
/// and more bytes than the UTF-8 form of any one of them.
proof fn lemma_strings_len(names: Seq<Seq<char>>, i: int)
    requires
        0 <= i < names.len(),
    ensures
        spec_encode_strings(names).len() >= names.len(),
        spec_encode_strings(names).len() > encode_utf8(names[i]).len(),
    decreases names.len(),
{
    lemma_string_len(names.last());
    if names.len() > 1 {
        if i < names.len() - 1 {
            lemma_strings_len(names.drop_last(), i);
        } else {
            lemma_strings_len(names.drop_last(), 0);
        }
    }
}

impl LoginStartPacket {
    /// Reads the payload of `packet` as a login start.
    pub fn new(packet: GenericPacket) -> (r: Result<Self, DecodeError>)
        ensures
            spec_parse_login_start(packet.data@) == match r {
                Ok(p) => Ok::<LoginStartModel, DecodeError>(p@),
                Err(e) => Err(e),
            },
    {
        let mut data = SliceReader::new(packet.data.as_slice());
        let player_name = data.read_string()?;
        Ok(Self { player_name })
    }
}

impl ServerPacket for LoginStartPacket {
    /// A login start is answered by two packets, in this order: the login
    /// succeeds under an all-zero identifier and the name that was given,
    /// and the player joins the game.
    open spec fn spec_handle(&self, server: &ServerState) -> Seq<OutboundModel> {
        seq![
            OutboundModel::LoginSuccess(
                LoginSuccessModel { uuid: 0, player_name: self.player_name@ },
            ),
            OutboundModel::JoinGame(spec_join_game(server)),
        ]
    }

    fn handle<'a>(&self, server: &'a ServerState) -> (replies: Vec<OutboundPacket<'a>>) {
        let success = LoginSuccessPacket { uuid: 0, player_name: self.player_name.clone() };
        let mut dim_names: Vec<String> = Vec::new();
        dim_names.push("minecraft:ocean".to_owned());
        let join = JoinGamePacket {
            eid: 0,
            hardcore: false,
            cgm: 1,
            pgm: -1,
            dim_names,
            dim_codec: &server.dim_codec,
            dimension: &server.dimension,
            dim_current: "minecraft:ocean".to_owned(),
            seed_hash: 0,
            max_players: 1,
            view_dist: 8,
            sim_dist: 8,
            reduce_debug: false,
            respawn_screen: false,
            debug_world: false,
            flat_world: true,
        };
        proof {
            assert(join@.dim_names =~= seq!["minecraft:ocean"@]);
        }
        let mut replies: Vec<OutboundPacket<'a>> = Vec::new();
        replies.push(OutboundPacket::LoginSuccess(success));
        replies.push(OutboundPacket::JoinGame(join));
        replies
    }
}

impl LoginSuccessPacket {
    /// The payload: the identifier in sixteen bytes, then the name.
    pub open spec fn spec_payload(&self) -> Seq<u8> {
        self.uuid.spec_to_be_bytes() + spec_encode_string(self.player_name@)
    }
}

impl ClientPacket for LoginSuccessPacket {
    open spec fn packet_id(&self) -> i32 {
        0x02
    }

    open spec fn is_payload(&self, payload: Seq<u8>) -> bool {
        payload == self.spec_payload()
    }

    fn write(&self, w: &mut Vec<u8>) -> (r: Result<(), EncodeError>)
        ensures
            frame_written(old(w)@, final(w)@, r, 0x02, self.spec_payload()),
    {
        if self.player_name.as_str().as_bytes().len() > 0x7fff_ffff {
            return Err(EncodeError::TooLarge);
        }
        let mut p = PacketWriter::new(0x02);
        p.write_be(self.uuid);
        p.write_string(self.player_name.as_str());
        let r = p.export(w);
        proof {
            if r is Ok {
                assert(self.is_payload(self.spec_payload()));
            }
        }
        r
    }
}

impl<'a> JoinGamePacket<'a> {
    /// Writes the packet to `w` as one frame, with `dim_codec` and
    /// `dimension` as the serialized forms of the two documents.
    pub fn write_with(&self, dim_codec: &[u8], dimension: &[u8], w: &mut Vec<u8>) -> (r: Result<
        (),
        EncodeError,
    >)
        ensures
            frame_written(old(w)@, final(w)@, r, 0x26, self@.payload(dim_codec@, dimension@)),
    {
        let ghost names = self@.dim_names;
        let mut p = PacketWriter::new(0x26);
        p.write_be(self.eid);
        p.write_be(self.hardcore);
        p.write_be(self.cgm);
        p.write_be(self.pgm);
        if self.dim_names.len() > 0x7fff_ffff {
            proof {
                lemma_strings_len(names, 0);
            }
            return Err(EncodeError::TooLarge);
        }
        p.write_varint(self.dim_names.len() as i32);
        let ghost head = p.buffer@;
        let mut i: usize = 0;
        while i < self.dim_names.len()
            invariant
                i <= self.dim_names.len(),
                names == self@.dim_names,
                names.len() == self.dim_names.len(),
                p.typ == 0x26,
                p.buffer@ == head + spec_encode_strings(names.take(i as int)),
                w@ == old(w)@,
            decreases self.dim_names.len() - i,
        {
            let name = self.dim_names[i].as_str();
            if name.as_bytes().len() > 0x7fff_ffff {
                proof {
                    lemma_strings_len(names, i as int);
                }
                return Err(EncodeError::TooLarge);
            }
            p.write_string(name);
            proof {
                let next = names.take(i + 1);
                assert(next.drop_last() == names.take(i as int));
            }
            i = i + 1;
        }
        assert(names.take(i as int) == names);
        p.write_bytes(dim_codec);
        p.write_bytes(dimension);
        if self.dim_current.as_str().as_bytes().len() > 0x7fff_ffff {
            proof {
                lemma_string_len(self.dim_current@);
            }
            return Err(EncodeError::TooLarge);
        }
        p.write_string(self.dim_current.as_str());
        p.write_be(self.seed_hash);
        p.write_varint(self.max_players);
        p.write_varint(self.view_dist);
        p.write_varint(self.sim_dist);
        p.write_be(self.reduce_debug);
        p.write_be(self.respawn_screen);
        p.write_be(self.debug_world);
        p.write_be(self.flat_world);
        p.export(w)
    }

    /// What writing the packet does to the bytes written so far, whatever
    /// the document encoder makes of the two documents. Either a document
    /// is refused and nothing is written, or both are serialized and the
    /// packet is written with them as `write_with` writes it: as one frame
    /// where the payload fits, and not at all where it does not.
    pub open spec fn written(
        &self,
        before: Seq<u8>,
        after: Seq<u8>,
        r: Result<(), EncodeError>,
    ) -> bool {
        ||| r == Err::<(), EncodeError>(EncodeError::Document) && after =~= before
        ||| exists|dim_codec: Seq<u8>, dimension: Seq<u8>|
            frame_written(before, after, r, 0x26, #[trigger] self@.payload(dim_codec, dimension))
    }
}

impl<'a> ClientPacket for JoinGamePacket<'a> {
    open spec fn packet_id(&self) -> i32 {
        0x26
    }

    /// The payload is fixed but for the serialized forms of the two
    /// documents, which the document encoder decides.
    open spec fn is_payload(&self, payload: Seq<u8>) -> bool {
        exists|dim_codec: Seq<u8>, dimension: Seq<u8>|
            payload == self@.payload(dim_codec, dimension)
    }

    fn write(&self, w: &mut Vec<u8>) -> (r: Result<(), EncodeError>)
        ensures
            self.written(old(w)@, final(w)@, r),
    {
        let dim_codec = match nbt_to_bytes(self.dim_codec, None) {
            Ok(bytes) => bytes,
            Err(_) => {
                return Err(EncodeError::Document);
            },
        };
        let dimension = match nbt_to_bytes(self.dimension, None) {
            Ok(bytes) => bytes,
            Err(_) => {
                return Err(EncodeError::Document);
            },
        };
        let r = self.write_with(dim_codec.as_slice(), dimension.as_slice(), w);
        proof {
            if r is Ok {
                assert(self.is_payload(self@.payload(dim_codec@, dimension@)));
            }
        }
        r
    }
}

} // verus!
