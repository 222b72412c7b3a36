use mc_protocol::server::client::State;
use mc_protocol::server::config::Config;
use mc_protocol::server::packet::dispatch::{InboundPacket, OutboundPacket};
use mc_protocol::server::packet::handshake::HandshakePacket;
use mc_protocol::server::packet::login::{JoinGamePacket, LoginStartPacket, LoginSuccessPacket};
use mc_protocol::server::packet::reader::{PacketReader, SliceReader};
use mc_protocol::server::packet::status::{
    status_document, PingPacket, PongPacket, StatusRequestPacket, StatusRespondPacket,
};
use mc_protocol::server::packet::writer::PacketWriter;
use mc_protocol::server::packet::{
    ClientPacket, DecodeError, EncodeError, GenericPacket, ServerPacket, UnknownPacket,
};
use mc_protocol::server::ServerState;
use quartz_nbt::{NbtCompound, NbtList};

fn server(motd: &str) -> ServerState {
    let mut dim_codec = NbtCompound::new();
    dim_codec.insert("a", 1i8);
    let mut dimension = NbtCompound::new();
    dimension.insert("b", 2i32);
    ServerState {
        config: Config { motd: motd.to_string(), address: "127.0.0.1:25565".to_string() },
        dim_codec,
        dimension,
    }
}

fn frame(id: i32, payload: &[u8]) -> Vec<u8> {
    let mut p = PacketWriter::new(id);
    p.write_bytes(payload);
    let mut w = Vec::new();
    p.export(&mut w).unwrap();
    w
}

fn handshake_payload(next: i32) -> Vec<u8> {
    let mut p = PacketWriter::new(0);
    p.write_varint(758);
    p.write_string("localhost");
    p.write_be(25565u16);
    p.write_varint(next);
    p.buffer
}

fn read_one(input: &[u8], state: &mut State) -> Result<InboundPacket, DecodeError> {
    let mut r = SliceReader::new(input);
    let packet = r.read_packet(state);
    if packet.is_ok() {
        assert!(r.bytes.is_empty());
    } else {
        assert_eq!(r.bytes, input);
    }
    packet
}

fn written(packet: &impl ClientPacket) -> Vec<u8> {
    let mut w = Vec::new();
    packet.write(&mut w).unwrap();
    w
}

#[test]
fn handshake_fields_are_read_in_order() {
    let payload = handshake_payload(1);
    assert_eq!(
        payload,
        vec![
            0xf6, 0x05, 0x09, b'l', b'o', b'c', b'a', b'l', b'h', b'o', b's', b't', 0x63, 0xdd,
            0x01
        ]
    );
    let p = HandshakePacket::new(GenericPacket { typ: 0, data: payload }).unwrap();
    assert_eq!(p.proto, 758);
    assert_eq!(p.address, "localhost");
    assert_eq!(p.port, 25565);
    assert_eq!(p.next, 1);
}

#[test]
fn handshake_ignores_what_follows() {
    let mut payload = handshake_payload(2);
    payload.extend_from_slice(&[0xff, 0xff]);
    let p = HandshakePacket::new(GenericPacket { typ: 0, data: payload }).unwrap();
    assert_eq!(p.next, 2);
}

#[test]
fn handshake_cut_short_is_truncated() {
    let payload = handshake_payload(1);
    for cut in 0..payload.len() {
        let r = HandshakePacket::new(GenericPacket { typ: 0, data: payload[..cut].to_vec() });
        assert_eq!(r.unwrap_err(), DecodeError::Truncated);
    }
}

#[test]
fn handshake_with_bad_address_is_refused() {
    let payload = vec![0x00, 0x01, 0xff, 0x63, 0xdd, 0x01];
    let r = HandshakePacket::new(GenericPacket { typ: 0, data: payload });
    assert_eq!(r.unwrap_err(), DecodeError::InvalidUtf8);
}

#[test]
fn handshake_to_status() {
    let mut state = State::Handshake;
    let packet = read_one(&frame(0, &handshake_payload(1)), &mut state).unwrap();
    assert_eq!(state, State::Status);
    match packet {
        InboundPacket::Handshake(p) => assert_eq!(p.next, 1),
        other => panic!("{:?}", other),
    }
}

#[test]
fn handshake_to_login() {
    let mut state = State::Handshake;
    let packet = read_one(&frame(0, &handshake_payload(2)), &mut state).unwrap();
    assert_eq!(state, State::Login);
    assert!(matches!(packet, InboundPacket::Handshake(_)));
}

#[test]
fn handshake_to_nowhere() {
    for next in [0, 3, 4, -1, 758, i32::MAX, i32::MIN] {
        let mut state = State::Handshake;
        let packet = read_one(&frame(0, &handshake_payload(next)), &mut state).unwrap();
        assert_eq!(state, State::Handshake);
        match packet {
            InboundPacket::Handshake(p) => assert_eq!(p.next, next),
            other => panic!("{:?}", other),
        }
    }
}

#[test]
fn handshake_that_fails_keeps_the_phase() {
    let mut state = State::Handshake;
    let r = read_one(&frame(0, &[0xf6, 0x05, 0x09, b'l']), &mut state);
    assert_eq!(r.unwrap_err(), DecodeError::Truncated);
    assert_eq!(state, State::Handshake);
    let r = read_one(&frame(0, &[0x80, 0x80, 0x80, 0x80, 0x80, 0x00]), &mut state);
    assert_eq!(r.unwrap_err(), DecodeError::MalformedVarInt);
    assert_eq!(state, State::Handshake);
}

#[test]
fn handshake_is_answered_by_nothing() {
    let p = HandshakePacket { proto: 758, address: "localhost".to_string(), port: 25565, next: 1 };
    assert!(p.handle(&server("hi")).is_empty());
    assert!(InboundPacket::Handshake(p).handle(&server("hi")).is_empty());
}

#[test]
fn identifiers_are_read_by_phase() {
    let ping = frame(1, &[0, 0, 0, 0, 0, 0, 0, 7]);
    let mut state = State::Status;
    assert!(matches!(read_one(&ping, &mut state), Ok(InboundPacket::Ping(_))));
    let mut state = State::Handshake;
    assert!(matches!(read_one(&ping, &mut state), Ok(InboundPacket::Unknown(_))));
    let mut state = State::Login;
    assert!(matches!(read_one(&ping, &mut state), Ok(InboundPacket::Unknown(_))));
    let zero = frame(0, &[0x01, b'A']);
    let mut state = State::Status;
    assert!(matches!(read_one(&zero, &mut state), Ok(InboundPacket::StatusRequest(_))));
    let mut state = State::Login;
    assert!(matches!(read_one(&zero, &mut state), Ok(InboundPacket::LoginStart(_))));
    let mut state = State::Play;
    assert!(matches!(read_one(&zero, &mut state), Ok(InboundPacket::Unknown(_))));
}

#[test]
fn unknown_identifier_keeps_the_phase() {
    let cases = [
        (State::Handshake, 1),
        (State::Handshake, -1),
        (State::Handshake, 0x26),
        (State::Status, 2),
        (State::Status, -1),
        (State::Login, 1),
        (State::Login, 2),
        (State::Play, 0),
        (State::Play, 1),
        (State::Play, 0x26),
    ];
    for (phase, id) in cases {
        for payload in [vec![], vec![0xff; 3], handshake_payload(1)] {
            let mut state = phase;
            let packet = read_one(&frame(id, &payload), &mut state).unwrap();
            assert!(matches!(packet, InboundPacket::Unknown(_)));
            assert_eq!(state, phase);
            assert!(packet.handle(&server("hi")).is_empty());
        }
    }
    assert!(UnknownPacket.handle(&server("hi")).is_empty());
}

#[test]
fn from_frame_agrees_with_read_packet() {
    let mut state = State::Handshake;
    let packet = GenericPacket { typ: 0, data: handshake_payload(2) };
    assert!(matches!(
        InboundPacket::from_frame(packet, &mut state),
        Ok(InboundPacket::Handshake(_))
    ));
    assert_eq!(state, State::Login);
    let packet = GenericPacket { typ: 0, data: vec![0x05, b'a'] };
    assert_eq!(
        InboundPacket::from_frame(packet, &mut state).unwrap_err(),
        DecodeError::Truncated
    );
    assert_eq!(state, State::Login);
}

#[test]
fn phase_never_returns_to_handshake() {
    for phase in [State::Status, State::Login, State::Play] {
        for id in [0, 1, 2] {
            for next in [0, 1, 2, 3] {
                let mut state = phase;
                let _ = read_one(&frame(id, &handshake_payload(next)), &mut state);
                assert_eq!(state, phase);
            }
        }
    }
}

#[test]
fn status_document_is_built_around_the_description() {
    assert_eq!(
        status_document("\"hi\""),
        "{\"version\":{\"name\":\"1.18.2\",\"protocol\":758},\"players\":{\"max\":1,\"online\":0,\"sample\":[]},\"description\":{\"text\":\"hi\"}}"
    );
}

#[test]
fn scenario_status_request() {
    let server = server("hi");
    let mut state = State::Handshake;
    let mut input = frame(0, &handshake_payload(1));
    input.extend_from_slice(&[0x01, 0x00]);
    let mut r = SliceReader::new(&input);
    let first = r.read_packet(&mut state).unwrap();
    assert!(matches!(first, InboundPacket::Handshake(_)));
    assert!(first.handle(&server).is_empty());
    assert_eq!(state, State::Status);
    let second = r.read_packet(&mut state).unwrap();
    assert!(matches!(second, InboundPacket::StatusRequest(_)));
    assert_eq!(state, State::Status);
    assert!(r.bytes.is_empty());
    let replies = second.handle(&server);
    assert_eq!(replies.len(), 1);
    let responce = match &replies[0] {
        OutboundPacket::StatusResponse(p) => p.responce.clone(),
        other => panic!("{:?}", other),
    };
    let doc = json::parse(&responce).unwrap();
    assert_eq!(doc["description"]["text"], "hi");
    assert_eq!(doc["version"]["name"], "1.18.2");
    assert_eq!(doc["version"]["protocol"], 758);
    assert_eq!(doc["players"]["max"], 1);
    assert_eq!(doc["players"]["online"], 0);
    assert!(doc["players"]["sample"].is_array());
    assert_eq!(doc["players"]["sample"].len(), 0);
    assert_eq!(
        responce,
        "{\"version\":{\"name\":\"1.18.2\",\"protocol\":758},\"players\":{\"max\":1,\"online\":0,\"sample\":[]},\"description\":{\"text\":\"hi\"}}"
    );
    let wire = written(&replies[0]);
    let mut back = SliceReader::new(&wire);
    let packet = back.read_generic_packet().unwrap();
    assert_eq!(packet.typ, 0);
    assert!(back.bytes.is_empty());
    let mut payload = SliceReader::new(&packet.data);
    assert_eq!(payload.read_string(), Ok(responce));
    assert!(payload.bytes.is_empty());
}

#[test]
fn status_description_is_escaped() {
    for motd in ["say \"hi\"", "back\\slash", "two\nlines", "tab\there", "gr\u{fc}n \u{1f600}", ""] {
        let server = server(motd);
        let replies = StatusRequestPacket::new().handle(&server);
        assert_eq!(replies.len(), 1);
        match &replies[0] {
            OutboundPacket::StatusResponse(p) => {
                let doc = json::parse(&p.responce).unwrap();
                assert_eq!(doc["description"]["text"], motd);
                assert_eq!(doc["description"].len(), 1);
                assert_eq!(doc.len(), 3);
            },
            other => panic!("{:?}", other),
        }
    }
}

#[test]
fn scenario_ping_pong() {
    let server = server("hi");
    let mut state = State::Status;
    let input = [0x09, 0x01, 0, 0, 0, 0, 0, 0, 0, 42];
    let ping = read_one(&input, &mut state).unwrap();
    match &ping {
        InboundPacket::Ping(p) => assert_eq!(p.payload, 42),
        other => panic!("{:?}", other),
    }
    assert_eq!(state, State::Status);
    let replies = ping.handle(&server);
    assert_eq!(replies.len(), 1);
    match &replies[0] {
        OutboundPacket::Pong(p) => assert_eq!(p.payload, 42),
        other => panic!("{:?}", other),
    }
    assert_eq!(written(&replies[0]), input);
}

#[test]
fn ping_echoes_any_eight_bytes() {
    for bytes in [[0u8; 8], [0xff; 8], [0x80, 0, 0, 0, 0, 0, 0, 0], [1, 2, 3, 4, 5, 6, 7, 8]] {
        let ping = PingPacket::new(GenericPacket { typ: 1, data: bytes.to_vec() }).unwrap();
        assert_eq!(ping.payload, i64::from_be_bytes(bytes));
        let server = server("");
        let replies = ping.handle(&server);
        assert_eq!(replies.len(), 1);
        let wire = written(&replies[0]);
        assert_eq!(&wire[..2], &[0x09, 0x01]);
        assert_eq!(&wire[2..], &bytes);
    }
}

#[test]
fn ping_cut_short_is_truncated() {
    let r = PingPacket::new(GenericPacket { typ: 1, data: vec![0; 7] });
    assert_eq!(r.unwrap_err(), DecodeError::Truncated);
    let mut state = State::Status;
    let r = read_one(&frame(1, &[0; 7]), &mut state);
    assert_eq!(r.unwrap_err(), DecodeError::Truncated);
    assert_eq!(state, State::Status);
}

#[test]
fn pong_is_eight_bytes_under_one() {
    assert_eq!(written(&PongPacket { payload: -2 }), vec![
        0x09, 0x01, 0xff, 0xff, 0xff, 0xff, 0xff, 0xff, 0xff, 0xfe
    ]);
}

#[test]
fn status_response_is_a_string_under_zero() {
    assert_eq!(
        written(&StatusRespondPacket { responce: "{}".to_string() }),
        vec![0x04, 0x00, 0x02, b'{', b'}']
    );
}

#[test]
fn scenario_login() {
    let server = server("hi");
    let mut state = State::Handshake;
    let mut input = frame(0, &handshake_payload(2));
    input.extend_from_slice(&[0x07, 0x00, 0x05, b'A', b'l', b'i', b'c', b'e']);
    let mut r = SliceReader::new(&input);
    let first = r.read_packet(&mut state).unwrap();
    assert!(first.handle(&server).is_empty());
    assert_eq!(state, State::Login);
    let second = r.read_packet(&mut state).unwrap();
    assert_eq!(state, State::Login);
    assert!(r.bytes.is_empty());
    match &second {
        InboundPacket::LoginStart(p) => assert_eq!(p.player_name, "Alice"),
        other => panic!("{:?}", other),
    }
    let replies = second.handle(&server);
    assert_eq!(replies.len(), 2);
    match &replies[0] {
        OutboundPacket::LoginSuccess(p) => {
            assert_eq!(p.uuid, 0);
            assert_eq!(p.player_name, "Alice");
        },
        other => panic!("{:?}", other),
    }
    match &replies[1] {
        OutboundPacket::JoinGame(p) => {
            assert_eq!(p.dim_names, vec!["minecraft:ocean".to_string()]);
            assert_eq!(p.eid, 0);
            assert_eq!(p.hardcore, false);
            assert_eq!(p.cgm, 1);
            assert_eq!(p.pgm, -1);
            assert!(*p.dim_codec == server.dim_codec);
            assert!(*p.dimension == server.dimension);
            assert_eq!(p.dim_current, "minecraft:ocean");
            assert_eq!(p.seed_hash, 0);
            assert_eq!(p.max_players, 1);
            assert_eq!(p.view_dist, 8);
            assert_eq!(p.sim_dist, 8);
            assert_eq!(p.reduce_debug, false);
            assert_eq!(p.respawn_screen, false);
            assert_eq!(p.debug_world, false);
            assert_eq!(p.flat_world, true);
        },
        other => panic!("{:?}", other),
    }
    let mut success = vec![0x17, 0x02];
    success.extend_from_slice(&[0; 16]);
    success.extend_from_slice(&[0x05, b'A', b'l', b'i', b'c', b'e']);
    assert_eq!(written(&replies[0]), success);
    let join = written(&replies[1]);
    let mut back = SliceReader::new(&join);
    let packet = back.read_generic_packet().unwrap();
    assert_eq!(packet.typ, 0x26);
    assert!(back.bytes.is_empty());
}

#[test]
fn login_start_reads_the_name() {
    let p = LoginStartPacket::new(GenericPacket { typ: 0, data: vec![0x02, b'B', b'o', 0xff] })
        .unwrap();
    assert_eq!(p.player_name, "Bo");
    let r = LoginStartPacket::new(GenericPacket { typ: 0, data: vec![0x02, b'B'] });
    assert_eq!(r.unwrap_err(), DecodeError::Truncated);
    let r = LoginStartPacket::new(GenericPacket { typ: 0, data: vec![0x02, 0xc3, 0x28] });
    assert_eq!(r.unwrap_err(), DecodeError::InvalidUtf8);
    let mut state = State::Login;
    let r = read_one(&frame(0, &[0x02, 0xc3, 0x28]), &mut state);
    assert_eq!(r.unwrap_err(), DecodeError::InvalidUtf8);
    assert_eq!(state, State::Login);
}

#[test]
fn login_success_is_identifier_then_name() {
    let p = LoginSuccessPacket { uuid: 0x0102030405060708090a0b0c0d0e0f10, player_name: "Al".to_string() };
    assert_eq!(
        written(&p),
        vec![
            0x14, 0x02, 0x01, 0x02, 0x03, 0x04, 0x05, 0x06, 0x07, 0x08, 0x09, 0x0a, 0x0b, 0x0c,
            0x0d, 0x0e, 0x0f, 0x10, 0x02, b'A', b'l'
        ]
    );
}

fn join_game<'a>(names: &[&str], dim_codec: &'a NbtCompound, dimension: &'a NbtCompound) -> JoinGamePacket<'a> {
    JoinGamePacket {
        eid: 0x01020304,
        hardcore: true,
        cgm: 1,
        pgm: -1,
        dim_names: names.iter().map(|n| n.to_string()).collect(),
        dim_codec,
        dimension,
        dim_current: "w".to_string(),
        seed_hash: -2,
        max_players: 300,
        view_dist: 8,
        sim_dist: 9,
        reduce_debug: false,
        respawn_screen: true,
        debug_world: false,
        flat_world: true,
    }
}

#[test]
fn join_game_fields_are_written_in_order() {
    let empty = NbtCompound::new();
    let p = join_game(&["ab", "c"], &empty, &empty);
    let mut w = vec![0x77];
    assert_eq!(p.write_with(&[0xa1, 0xa2], &[0xb1], &mut w), Ok(()));
    assert_eq!(
        w,
        vec![
            0x77, 0x23, 0x26, 0x01, 0x02, 0x03, 0x04, 0x01, 0x01, 0xff, 0x02, 0x02, b'a', b'b',
            0x01, b'c', 0xa1, 0xa2, 0xb1, 0x01, b'w', 0xff, 0xff, 0xff, 0xff, 0xff, 0xff, 0xff,
            0xfe, 0xac, 0x02, 0x08, 0x09, 0x00, 0x01, 0x00, 0x01
        ]
    );
}

#[test]
fn join_game_without_dimensions() {
    let empty = NbtCompound::new();
    let p = join_game(&[], &empty, &empty);
    let mut w = Vec::new();
    assert_eq!(p.write_with(&[], &[], &mut w), Ok(()));
    assert_eq!(
        w,
        vec![
            0x1b, 0x26, 0x01, 0x02, 0x03, 0x04, 0x01, 0x01, 0xff, 0x00, 0x01, b'w', 0xff, 0xff,
            0xff, 0xff, 0xff, 0xff, 0xff, 0xfe, 0xac, 0x02, 0x08, 0x09, 0x00, 0x01, 0x00, 0x01
        ]
    );
}

#[test]
fn join_game_carries_its_documents() {
    let mut dim_codec = NbtCompound::new();
    dim_codec.insert("a", 1i8);
    let mut dimension = NbtCompound::new();
    dimension.insert("b", 2i32);
    let p = join_game(&["ab"], &dim_codec, &dimension);
    let mut expected = Vec::new();
    let codec_bytes = [0x0a, 0x00, 0x00, 0x01, 0x00, 0x01, b'a', 0x01, 0x00];
    let dimension_bytes = [0x0a, 0x00, 0x00, 0x03, 0x00, 0x01, b'b', 0, 0, 0, 2, 0x00];
    assert_eq!(p.write_with(&codec_bytes, &dimension_bytes, &mut expected), Ok(()));
    assert_eq!(written(&p), expected);
    assert_eq!(written(&OutboundPacket::JoinGame(p)), expected);
}

#[test]
fn join_game_with_a_bad_document_is_refused() {
    let mut list = NbtList::new();
    list.push(1i32);
    list.push("one");
    let mut bad = NbtCompound::new();
    bad.insert("list", list);
    let good = NbtCompound::new();
    let mut w = vec![1, 2];
    assert_eq!(join_game(&["ab"], &bad, &good).write(&mut w), Err(EncodeError::Document));
    assert_eq!(w, vec![1, 2]);
    assert_eq!(join_game(&["ab"], &good, &bad).write(&mut w), Err(EncodeError::Document));
    assert_eq!(w, vec![1, 2]);
    assert_eq!(join_game(&["ab"], &good, &good).write(&mut w), Ok(()));
    assert_eq!(&w[..4], &[1, 2, 0x26, 0x26]);
    assert_eq!(w.len(), 2 + 1 + 0x26);
}

#[test]
fn replies_travel_under_their_identifiers() {
    let empty = NbtCompound::new();
    let replies = [
        (OutboundPacket::StatusResponse(StatusRespondPacket { responce: String::new() }), 0x00),
        (OutboundPacket::Pong(PongPacket { payload: 0 }), 0x01),
        (
            OutboundPacket::LoginSuccess(LoginSuccessPacket { uuid: 0, player_name: String::new() }),
            0x02,
        ),
        (OutboundPacket::JoinGame(join_game(&[], &empty, &empty)), 0x26),
    ];
    for (reply, id) in &replies {
        let wire = written(reply);
        let mut r = SliceReader::new(&wire);
        let packet = r.read_generic_packet().unwrap();
        assert_eq!(packet.typ, *id);
        assert!(r.bytes.is_empty());
    }
}
