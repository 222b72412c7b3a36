//! From frames to requests, and from requests to replies.
//!
//! What a packet identifier means depends on the phase of the connection,
//! so a frame is never read as a packet without the phase at hand.

use vstd::prelude::*;
use super::handshake::{spec_parse_handshake, HandshakeModel, HandshakePacket};
use super::login::{
    spec_parse_login_start, JoinGameModel, JoinGamePacket, LoginStartModel, LoginStartPacket,
    LoginSuccessModel, LoginSuccessPacket,
};
use super::status::{
    spec_parse_ping, PingPacket, PongPacket, StatusRequestPacket, StatusRespondModel,
    StatusRespondPacket,
};
use super::super::client::State;
use super::super::ServerState;
use super::wire::{frame_written, spec_decode_frame};
use super::{ClientPacket, DecodeError, EncodeError, GenericPacket, ServerPacket, UnknownPacket};

verus! {

/// A request from the client.
#[derive(Debug)]
pub enum InboundPacket {
    Handshake(HandshakePacket),
    StatusRequest(StatusRequestPacket),
    Ping(PingPacket),
    LoginStart(LoginStartPacket),
    Unknown(UnknownPacket),
}

/// An `InboundPacket` with its fields as values.
pub enum InboundModel {
    Handshake(HandshakeModel),
    StatusRequest,
    Ping(PingPacket),
    LoginStart(LoginStartModel),
    Unknown,
}

/// A reply to the client.
#[derive(Debug)]
pub enum OutboundPacket<'a> {
    StatusResponse(StatusRespondPacket),
    Pong(PongPacket),
    LoginSuccess(LoginSuccessPacket),
    JoinGame(JoinGamePacket<'a>),
}

/// An `OutboundPacket` with its fields as values.
pub enum OutboundModel {
    StatusResponse(StatusRespondModel),
    Pong(PongPacket),
    LoginSuccess(LoginSuccessModel),
    JoinGame(JoinGameModel),
}

impl View for InboundPacket {
    type V = InboundModel;

    open spec fn view(&self) -> InboundModel {
        match self {
            InboundPacket::Handshake(p) => InboundModel::Handshake(p@),
            InboundPacket::StatusRequest(_) => InboundModel::StatusRequest,
            InboundPacket::Ping(p) => InboundModel::Ping(*p),
            InboundPacket::LoginStart(p) => InboundModel::LoginStart(p@),
            InboundPacket::Unknown(_) => InboundModel::Unknown,
        }
    }
}

impl<'a> View for OutboundPacket<'a> {
    type V = OutboundModel;

    open spec fn view(&self) -> OutboundModel {
        match self {
            OutboundPacket::StatusResponse(p) => OutboundModel::StatusResponse(p@),
            OutboundPacket::Pong(p) => OutboundModel::Pong(*p),
            OutboundPacket::LoginSuccess(p) => OutboundModel::LoginSuccess(p@),
            OutboundPacket::JoinGame(p) => OutboundModel::JoinGame(p@),
        }
    }
}

/// The replies of `replies` with their fields as values.
pub open spec fn reply_models(replies: Seq<OutboundPacket>) -> Seq<OutboundModel> {
    Seq::new(replies.len(), |i: int| replies[i]@)
}

/// The phase a connection is in after a handshake that asks for `next`:
/// 1 asks for the status phase, 2 for the login phase, and anything else
/// leaves the connection where it is.
pub open spec fn phase_after_handshake(next: i32) -> State {
    if next == 1 {
        State::Status
    } else if next == 2 {
        State::Login
    } else {
        State::Handshake
    }
}

/// Whether the identifier `typ` names a packet in the phase `state`.
pub open spec fn is_known(state: State, typ: i32) -> bool {
    ||| state == State::Handshake && typ == 0
    ||| state == State::Status && (typ == 0 || typ == 1)
    ||| state == State::Login && typ == 0
}

/// The request that a frame stands for in the phase `state`, and the phase
/// after it.
pub open spec fn spec_classify(state: State, typ: i32, data: Seq<u8>) -> Result<
    (InboundModel, State),
    DecodeError,
> {
    if state == State::Handshake && typ == 0 {
        match spec_parse_handshake(data) {
            Ok(p) => Ok((InboundModel::Handshake(p), phase_after_handshake(p.next))),
            Err(e) => Err(e),
        }
    } else if state == State::Status && typ == 0 {
        Ok((InboundModel::StatusRequest, state))
    } else if state == State::Status && typ == 1 {
        match spec_parse_ping(data) {
            Ok(p) => Ok((InboundModel::Ping(p), state)),
            Err(e) => Err(e),
        }
    } else if state == State::Login && typ == 0 {
        match spec_parse_login_start(data) {
            Ok(p) => Ok((InboundModel::LoginStart(p), state)),
            Err(e) => Err(e),
        }
    } else {
        Ok((InboundModel::Unknown, state))
    }
}

/// The request that the frame at the start of `input` stands for in the
/// phase `state`, the phase after it, and the number of bytes the frame
/// takes.
pub open spec fn spec_read_packet(input: Seq<u8>, state: State) -> Result<
    (InboundModel, State, nat),
    DecodeError,
> {
    match spec_decode_frame(input) {
        Err(e) => Err(e),
        Ok((typ, data, n)) => match spec_classify(state, typ, data) {
            Err(e) => Err(e),
            Ok((request, next)) => Ok((request, next, n)),
        },
    }
}

impl InboundPacket {
    /// Reads the frame `packet` as a request in the phase `state`, and
    /// moves `state` on where the request is a handshake. A frame that
    /// cannot be read leaves `state` as it was.
    pub fn from_frame(packet: GenericPacket, state: &mut State) -> (r: Result<Self, DecodeError>)
        ensures
            match spec_classify(*old(state), packet.typ, packet.data@) {
                Ok((request, next)) => r is Ok && r.unwrap()@ == request && *final(state) == next,
                Err(e) => r == Err::<Self, DecodeError>(e) && *final(state) == *old(state),
            },
    {
        let typ = packet.typ;
        match *state {
            State::Handshake => {
                if typ == 0 {
                    match HandshakePacket::new(packet) {
                        Ok(request) => {
                            *state =
                            if request.next == 1 {
                                State::Status
                            } else if request.next == 2 {
                                State::Login
                            } else {
                                State::Handshake
                            };
                            Ok(InboundPacket::Handshake(request))
                        },
                        Err(e) => Err(e),
                    }
                } else {
                    Ok(InboundPacket::Unknown(UnknownPacket))
                }
            },
            State::Status => {
                if typ == 0 {
                    Ok(InboundPacket::StatusRequest(StatusRequestPacket::new()))
                } else if typ == 1 {
                    match PingPacket::new(packet) {
                        Ok(request) => Ok(InboundPacket::Ping(request)),
                        Err(e) => Err(e),
                    }
                } else {
                    Ok(InboundPacket::Unknown(UnknownPacket))
                }
            },
            State::Login => {
                if typ == 0 {
                    match LoginStartPacket::new(packet) {
                        Ok(request) => Ok(InboundPacket::LoginStart(request)),
                        Err(e) => Err(e),
                    }
                } else {
                    Ok(InboundPacket::Unknown(UnknownPacket))
                }
            },
            State::Play => Ok(InboundPacket::Unknown(UnknownPacket)),
        }
    }
}

impl ServerPacket for InboundPacket {
    open spec fn spec_handle(&self, server: &ServerState) -> Seq<OutboundModel> {
        match self {
            InboundPacket::Handshake(p) => p.spec_handle(server),
            InboundPacket::StatusRequest(p) => p.spec_handle(server),
            InboundPacket::Ping(p) => p.spec_handle(server),
            InboundPacket::LoginStart(p) => p.spec_handle(server),
            InboundPacket::Unknown(p) => p.spec_handle(server),
        }
    }

    fn handle<'a>(&self, server: &'a ServerState) -> (replies: Vec<OutboundPacket<'a>>) {
        match self {
            InboundPacket::Handshake(p) => p.handle(server),
            InboundPacket::StatusRequest(p) => p.handle(server),
            InboundPacket::Ping(p) => p.handle(server),
            InboundPacket::LoginStart(p) => p.handle(server),
            InboundPacket::Unknown(p) => p.handle(server),
        }
    }
}

impl<'a> ClientPacket for OutboundPacket<'a> {
    open spec fn packet_id(&self) -> i32 {
        match self {
            OutboundPacket::StatusResponse(p) => p.packet_id(),
            OutboundPacket::Pong(p) => p.packet_id(),
            OutboundPacket::LoginSuccess(p) => p.packet_id(),
            OutboundPacket::JoinGame(p) => p.packet_id(),
        }
    }

    open spec fn is_payload(&self, payload: Seq<u8>) -> bool {
        match self {
            OutboundPacket::StatusResponse(p) => p.is_payload(payload),
            OutboundPacket::Pong(p) => p.is_payload(payload),
            OutboundPacket::LoginSuccess(p) => p.is_payload(payload),
            OutboundPacket::JoinGame(p) => p.is_payload(payload),
        }
    }

    fn write(&self, w: &mut Vec<u8>) -> (r: Result<(), EncodeError>)
        ensures
            match self {
                OutboundPacket::StatusResponse(p) => frame_written(
                    old(w)@,
                    final(w)@,
                    r,
                    0x00,
                    p.spec_payload(),
                ),
                OutboundPacket::Pong(p) => r is Ok && frame_written(
                    old(w)@,
                    final(w)@,
                    r,
                    0x01,
                    p.spec_payload(),
                ),
                OutboundPacket::LoginSuccess(p) => frame_written(
                    old(w)@,
                    final(w)@,
                    r,
                    0x02,
                    p.spec_payload(),
                ),
                OutboundPacket::JoinGame(p) => p.written(old(w)@, final(w)@, r),
            },
    {
        match self {
            OutboundPacket::StatusResponse(p) => {
                let r = p.write(w);
                proof {
                    if r is Ok {
                        assert(self.is_payload(p.spec_payload()));
                    }
                }
                r
            },
            OutboundPacket::Pong(p) => {
                let r = p.write(w);
                proof {
                    if r is Ok {
                        assert(self.is_payload(p.spec_payload()));
                    }
                }
                r
            },
            OutboundPacket::LoginSuccess(p) => {
                let r = p.write(w);
                proof {
                    if r is Ok {
                        assert(self.is_payload(p.spec_payload()));
                    }
                }
                r
            },
            OutboundPacket::JoinGame(p) => {
                let r = p.write(w);
                proof {
                    if r is Ok {
                        let payload = choose|payload: Seq<u8>|
                            p.is_payload(payload) && frame_written(
                                old(w)@,
                                w@,
                                r,
                                p.packet_id(),
                                payload,
                            );
                        assert(self.is_payload(payload));
                    }
                }
                r
            },
        }
    }
}

/// A handshake moves the connection to the phase it asks for: to the
/// status phase on 1, to the login phase on 2, and nowhere on anything else.
pub proof fn lemma_handshake_sets_phase(data: Seq<u8>)
    requires
        spec_parse_handshake(data) is Ok,
    ensures
        spec_classify(State::Handshake, 0, data) is Ok,
        spec_classify(State::Handshake, 0, data).unwrap().0 == InboundModel::Handshake(
            spec_parse_handshake(data).unwrap(),
        ),
        spec_classify(State::Handshake, 0, data).unwrap().1 == (if spec_parse_handshake(
            data,
        ).unwrap().next == 1 {
            State::Status
        } else if spec_parse_handshake(data).unwrap().next == 2 {
            State::Login
        } else {
            State::Handshake
        }),
{
}

/// An identifier that names no packet in the current phase is no error:
/// the frame is read as an unknown request, and the phase stays.
pub proof fn lemma_unknown_keeps_phase(state: State, typ: i32, data: Seq<u8>)
    requires
        !is_known(state, typ),
    ensures
        spec_classify(state, typ, data) == Ok::<(InboundModel, State), DecodeError>(
            (InboundModel::Unknown, state),
        ),
{
}

/// The phase changes only in the handshake phase: once a connection has
/// left it, no frame takes it back or anywhere else.
pub proof fn lemma_phase_stays_after_handshake(state: State, typ: i32, data: Seq<u8>)
    requires
        state != State::Handshake,
        spec_classify(state, typ, data) is Ok,
    ensures
        spec_classify(state, typ, data).unwrap().1 == state,
{
}

} // verus!
