//! Admission control and the end-to-end handshake, status and login
//! scenarios.

use soulflame::cfg::{RuntimeConfiguration, SoulflameConfiguration};
use soulflame::chat::Component;
use soulflame::error::{ProtocolKind, WireError};
use soulflame::net_io::{PacketRead, PacketWrite, VarInt};
use soulflame::network::client::{
    build_status_response, disconnect_packet, handshake_transition, pong_for, status_response_packet,
    DisconnectPacket, ProtocolState,
};
use soulflame::network::encode::{PacketDecoder, PacketEncoder};
use soulflame::network::PlayerCount;
use soulflame::protocol::client::handshake::{HandshakeState, InHandshake};
use soulflame::protocol::client::status::{InStatus, PacketStatusInPing};
use soulflame::protocol::server::login::OutLogin;
use soulflame::protocol::server::status::OutStatus;

const PROTO_VERSION: u32 = 759;

#[test]
fn admission_full_at_zero() {
    let count = PlayerCount::new(0);
    for _ in 0..3 {
        assert!(matches!(count.try_add(), Err(WireError::Admission)));
    }
    assert_eq!(count.get(), 0);
}

#[test]
fn admission_commits_min() {
    let count = PlayerCount::new(3);
    let mut ok = 0;
    for _ in 0..5 {
        if count.try_add().is_ok() {
            ok += 1;
        }
    }
    assert_eq!(ok, 3);
    assert_eq!(count.get(), 3);

    count.remove_player();
    assert_eq!(count.get(), 2);
    assert!(count.try_add().is_ok());
    assert!(count.try_add().is_err());
}

fn test_config() -> (SoulflameConfiguration, RuntimeConfiguration) {
    let config = SoulflameConfiguration::default();
    let runtime = RuntimeConfiguration::from_favicon_bytes(&vec![0x89, 0x50, 0x4e, 0x47]);
    (config, runtime)
}

/// Frame a raw body with its VarInt length prefix.
fn frame(body: &[u8]) -> Vec<u8> {
    let mut out: Vec<u8> = vec![];
    VarInt(body.len() as i32).pack_write(&mut out, PROTO_VERSION).unwrap();
    out.extend_from_slice(body);
    out
}

#[test]
fn status_handshake_scenario() {
    // The client's literal handshake: id 0, protocol 759, "localhost",
    // port 25565, next state 1.
    let mut body: Vec<u8> = vec![];
    VarInt(0x00).pack_write(&mut body, PROTO_VERSION).unwrap();
    VarInt(759).pack_write(&mut body, PROTO_VERSION).unwrap();
    "localhost".to_string().pack_write(&mut body, PROTO_VERSION).unwrap();
    25565u16.pack_write(&mut body, PROTO_VERSION).unwrap();
    VarInt(1).pack_write(&mut body, PROTO_VERSION).unwrap();

    let mut dec = PacketDecoder::new();
    dec.digest(&frame(&body));
    let InHandshake::PacketHandshakeIn(hs) = dec.read::<InHandshake>().unwrap().unwrap();
    assert_eq!(hs.protocol_version, 759);
    assert_eq!(hs.server_address, "localhost");
    assert_eq!(hs.server_port, 25565);
    assert_eq!(hs.next_state, HandshakeState::Status);

    let state = handshake_transition(ProtocolState::Handshake, &hs).unwrap();
    assert_eq!(state, ProtocolState::Status);

    // The status request: a bare packet id 0.
    let mut req: Vec<u8> = vec![];
    VarInt(0x00).pack_write(&mut req, PROTO_VERSION).unwrap();
    dec.digest(&frame(&req));
    assert!(matches!(
        dec.read::<InStatus>().unwrap().unwrap(),
        InStatus::PacketStatusInRequest(_)
    ));

    // The server's response carries the configured fields.
    let (config, runtime) = test_config();
    let response = status_response_packet(&config, &runtime);
    assert!(response.response.contains("\"protocol\":759"));
    assert!(response.response.contains("\"max\":20"));
    assert!(response.response.contains("A Soulflame server."));
    assert!(response.response.contains("\"favicon\":\"data:image/png;base64,"));

    // And it goes over the wire as a framed string.
    let mut wire: Vec<u8> = vec![];
    let mut enc = PacketEncoder::new();
    enc.consume(&mut wire, &OutStatus::PacketStatusOutResponse(response.clone())).unwrap();
    let mut peer = PacketDecoder::new();
    peer.digest(&wire);
    match peer.read::<OutStatus>().unwrap().unwrap() {
        OutStatus::PacketStatusOutResponse(got) => assert_eq!(got.response, response.response),
        other => panic!("unexpected packet {:?}", other),
    }
}

#[test]
fn status_ping_scenario() {
    // The literal ping: id 1, payload 0x0102030405060708.
    let mut body: Vec<u8> = vec![];
    VarInt(0x01).pack_write(&mut body, PROTO_VERSION).unwrap();
    0x0102030405060708i64.pack_write(&mut body, PROTO_VERSION).unwrap();
    let mut dec = PacketDecoder::new();
    dec.digest(&frame(&body));
    let ping = match dec.read::<InStatus>().unwrap().unwrap() {
        InStatus::PacketStatusInPing(p) => p,
        other => panic!("unexpected packet {:?}", other),
    };
    assert_eq!(*ping.payload(), 0x0102030405060708);

    let pong = pong_for(&ping);
    assert_eq!(pong.payload, 0x0102030405060708);

    let mut wire: Vec<u8> = vec![];
    let mut enc = PacketEncoder::new();
    enc.consume(&mut wire, &OutStatus::PacketStatusOutPong(pong)).unwrap();
    let mut peer = PacketDecoder::new();
    peer.digest(&wire);
    match peer.read::<OutStatus>().unwrap().unwrap() {
        OutStatus::PacketStatusOutPong(p) => assert_eq!(p.payload, 0x0102030405060708),
        other => panic!("unexpected packet {:?}", other),
    }
}

#[test]
fn login_rejected_scenario() {
    // A handshake asking for Login moves the state there; the server
    // answers with a login disconnect and closes.
    let mut body: Vec<u8> = vec![];
    VarInt(0x00).pack_write(&mut body, PROTO_VERSION).unwrap();
    VarInt(759).pack_write(&mut body, PROTO_VERSION).unwrap();
    "localhost".to_string().pack_write(&mut body, PROTO_VERSION).unwrap();
    25565u16.pack_write(&mut body, PROTO_VERSION).unwrap();
    VarInt(2).pack_write(&mut body, PROTO_VERSION).unwrap();
    let mut dec = PacketDecoder::new();
    dec.digest(&frame(&body));
    let InHandshake::PacketHandshakeIn(hs) = dec.read::<InHandshake>().unwrap().unwrap();
    let state = handshake_transition(ProtocolState::Handshake, &hs).unwrap();
    assert_eq!(state, ProtocolState::Login);

    let reason = Component::plain("Logging in is not yet supported!");
    let packet = match disconnect_packet(state, reason.clone()).unwrap() {
        DisconnectPacket::Login(p) => p,
        other => panic!("unexpected disconnect {:?}", other),
    };
    assert_eq!(packet.reason, reason);

    let mut wire: Vec<u8> = vec![];
    let mut enc = PacketEncoder::new();
    enc.consume(&mut wire, &OutLogin::PacketLoginOutDisconnect(packet)).unwrap();
    let mut peer = PacketDecoder::new();
    peer.digest(&wire);
    match peer.read::<OutLogin>().unwrap().unwrap() {
        OutLogin::PacketLoginOutDisconnect(p) => assert_eq!(p.reason, reason),
        other => panic!("unexpected packet {:?}", other),
    }
}

#[test]
fn disconnect_needs_login_or_play() {
    let reason = Component::plain("x");
    assert!(matches!(
        disconnect_packet(ProtocolState::Handshake, reason.clone()),
        Err(WireError::Protocol(ProtocolKind::InvalidTransition))
    ));
    assert!(matches!(
        disconnect_packet(ProtocolState::Status, reason.clone()),
        Err(WireError::Protocol(ProtocolKind::InvalidTransition))
    ));
    assert!(disconnect_packet(ProtocolState::Play, reason).is_ok());
}

#[test]
fn handshake_only_from_handshake_state() {
    let (_config, _runtime) = test_config();
    let hs = match {
        let mut body: Vec<u8> = vec![];
        VarInt(0x00).pack_write(&mut body, PROTO_VERSION).unwrap();
        VarInt(759).pack_write(&mut body, PROTO_VERSION).unwrap();
        "h".to_string().pack_write(&mut body, PROTO_VERSION).unwrap();
        1u16.pack_write(&mut body, PROTO_VERSION).unwrap();
        VarInt(1).pack_write(&mut body, PROTO_VERSION).unwrap();
        let mut dec = PacketDecoder::new();
        dec.digest(&frame(&body));
        dec.read::<InHandshake>().unwrap().unwrap()
    } {
        InHandshake::PacketHandshakeIn(p) => p,
    };
    assert!(matches!(
        handshake_transition(ProtocolState::Status, &hs),
        Err(WireError::Protocol(ProtocolKind::InvalidTransition))
    ));
}

#[test]
fn status_response_fields() {
    let (config, runtime) = test_config();
    let status = build_status_response(&config, &runtime);
    assert_eq!(status.version.name, "Latest");
    assert_eq!(status.version.protocol, 759);
    assert_eq!(status.players.max, 20);
    assert_eq!(status.players.online, 0);
    assert!(status.players.sample.is_empty());
    assert_eq!(status.description.json(), "{\"text\":\"A Soulflame server.\"}");
    assert!(status.favicon.starts_with("data:image/png;base64,"));
}
