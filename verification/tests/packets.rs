//! Round trips of every declared packet, and identifier validation.

use soulflame::error::{MalformedKind, ProtocolKind, WireError};
use soulflame::chat::Component;
use soulflame::net_io::{ByteArray, PacketRead, PacketWrite, VarInt};
use soulflame::protocol::client::handshake::{HandshakeState, InHandshake, PacketHandshakeIn};
use soulflame::protocol::client::login::{
    InLogin, PacketLoginInEncryptionResponse, PacketLoginInPluginResponse, PacketLoginInStart,
};
use soulflame::protocol::client::status::{InStatus, PacketStatusInPing, PacketStatusInRequest};
use soulflame::protocol::server::login::{
    OutLogin, PacketLoginOutCompression, PacketLoginOutDisconnect,
    PacketLoginOutEncryptionRequest, PacketLoginOutPluginMessage, PacketLoginOutSuccess,
    ProfileProperty,
};
use soulflame::protocol::server::play::{PacketPlayOut, PacketPlayOutDisconnect};
use soulflame::protocol::server::status::{OutStatus, PacketStatusOutPong, PacketStatusOutResponse};
use soulflame::util::Identifier;

const PROTO_VERSION: u32 = 759;

fn roundtrip<S: PacketWrite + PacketRead + PartialEq + std::fmt::Debug>(stage: S) {
    let mut buffer: Vec<u8> = vec![];
    stage.pack_write(&mut buffer, PROTO_VERSION).unwrap();
    let mut pos = 0usize;
    let got = S::pack_read(&buffer, &mut pos, PROTO_VERSION).unwrap();
    assert_eq!(pos, buffer.len());
    assert_eq!(got, stage);
}

#[test]
fn handshake_roundtrip() {
    roundtrip(InHandshake::PacketHandshakeIn(PacketHandshakeIn::new(
        759,
        "localhost".to_string(),
        25565,
        HandshakeState::Status,
    )));
    roundtrip(InHandshake::PacketHandshakeIn(PacketHandshakeIn::new(
        759,
        "example.invalid".to_string(),
        1,
        HandshakeState::Login,
    )));
}

#[test]
fn status_in_roundtrip() {
    roundtrip(InStatus::PacketStatusInRequest(PacketStatusInRequest::new()));
    roundtrip(InStatus::PacketStatusInPing(PacketStatusInPing::new(
        0x0102030405060708,
    )));
}

#[test]
fn status_out_roundtrip() {
    roundtrip(OutStatus::PacketStatusOutResponse(PacketStatusOutResponse::new(
        "{\"description\":{\"text\":\"hi\"}}".to_string(),
    )));
    roundtrip(OutStatus::PacketStatusOutPong(PacketStatusOutPong::new(-9)));
}

#[test]
fn login_in_roundtrip() {
    roundtrip(InLogin::PacketLoginInStart(PacketLoginInStart::new(
        "steve".to_string(),
        Some(123456789),
        Some(vec![1, 2, 3]),
        None,
    )));
    roundtrip(InLogin::PacketLoginInEncryptionResponse(
        PacketLoginInEncryptionResponse::new(vec![7; 16], Some(vec![4, 5]), Some(-1), None),
    ));
    roundtrip(InLogin::PacketLoginInPluginResponse(
        PacketLoginInPluginResponse::new(3, Some(ByteArray(vec![0xaa, 0xbb]))),
    ));
    roundtrip(InLogin::PacketLoginInPluginResponse(
        PacketLoginInPluginResponse::new(4, None),
    ));
}

#[test]
fn login_out_roundtrip() {
    roundtrip(OutLogin::PacketLoginOutDisconnect(PacketLoginOutDisconnect::new(
        Component::plain("bye"),
    )));
    roundtrip(OutLogin::PacketLoginOutEncryptionRequest(
        PacketLoginOutEncryptionRequest::new("".to_string(), vec![1; 64], vec![9, 9, 9, 9]),
    ));
    roundtrip(OutLogin::PacketLoginOutSuccess(PacketLoginOutSuccess::new(
        0x0011223344556677_8899aabbccddeeff,
        "alex".to_string(),
        vec![ProfileProperty::new(
            "textures".to_string(),
            "value".to_string(),
            Some("sig".to_string()),
        )],
    )));
    roundtrip(OutLogin::PacketLoginOutCompression(PacketLoginOutCompression::new(256)));
    roundtrip(OutLogin::PacketLoginOutPluginMessage(PacketLoginOutPluginMessage::new(
        1,
        Identifier::minecraft("brand".to_string()).unwrap(),
        ByteArray(vec![1, 2, 3, 4]),
    )));
}

#[test]
fn play_out_roundtrip() {
    roundtrip(PacketPlayOut::PacketPlayOutDisconnect(PacketPlayOutDisconnect::new(
        Component::plain("server closed"),
    )));
}

#[test]
fn unknown_packet_id_rejected() {
    let mut buffer: Vec<u8> = vec![];
    VarInt(0x42).pack_write(&mut buffer, PROTO_VERSION).unwrap();
    let mut pos = 0usize;
    let r = InStatus::pack_read(&buffer, &mut pos, PROTO_VERSION);
    assert!(matches!(
        r,
        Err(WireError::Protocol(ProtocolKind::UnknownPacketId))
    ));
}

#[test]
fn invalid_enum_tag_rejected() {
    // A handshake whose next_state tag is 3.
    let mut buffer: Vec<u8> = vec![];
    VarInt(0x00).pack_write(&mut buffer, PROTO_VERSION).unwrap();
    VarInt(759).pack_write(&mut buffer, PROTO_VERSION).unwrap();
    "localhost".to_string().pack_write(&mut buffer, PROTO_VERSION).unwrap();
    25565u16.pack_write(&mut buffer, PROTO_VERSION).unwrap();
    VarInt(3).pack_write(&mut buffer, PROTO_VERSION).unwrap();
    let mut pos = 0usize;
    let r = InHandshake::pack_read(&buffer, &mut pos, PROTO_VERSION);
    assert!(matches!(
        r,
        Err(WireError::Protocol(ProtocolKind::InvalidEnumTag))
    ));
}

#[test]
fn identifier_validation() {
    let ok = Identifier::parse("minecraft:stone".to_string()).unwrap();
    assert_eq!(ok.namespace(), "minecraft");
    assert_eq!(ok.path(), "stone");
    assert_eq!(ok.to_string(), "minecraft:stone");

    let bad = Identifier::parse("Minecraft:Stone".to_string());
    assert!(matches!(
        bad,
        Err(WireError::Malformed(MalformedKind::InvalidIdentifier))
    ));

    assert!(Identifier::parse("nocolon".to_string()).is_err());
    assert!(Identifier::parse(":stone".to_string()).is_err());
    assert!(Identifier::parse("mine craft:stone".to_string()).is_err());
    assert!(Identifier::new("my-ns_0.9".to_string(), "a/b/c".to_string()).is_ok());
    assert!(Identifier::new("".to_string(), "x".to_string()).is_err());
    assert!(Identifier::soulflame("thing".to_string()).unwrap().to_string() == "soulflame:thing");
    assert!(Identifier::minecraft("dirt".to_string()).unwrap().namespace() == "minecraft");
    assert!(Identifier::minecraft("Dirt".to_string()).is_err());
}

#[test]
fn packet_write_failure_leaves_buffer_untouched() {
    // A packet whose string field is over the cap fails with OverLimit and
    // writes nothing, though its id and earlier fields would have fit.
    let p = PacketHandshakeIn::new(759, "a".repeat(32768), 25565, HandshakeState::Status);
    let mut buffer: Vec<u8> = vec![7, 7];
    assert!(matches!(
        p.pack_write(&mut buffer, PROTO_VERSION),
        Err(WireError::OverLimit)
    ));
    assert_eq!(buffer, vec![7, 7]);
}

#[test]
fn identifier_wire_roundtrip() {
    let id = Identifier::parse("soulflame:some/path.x".to_string()).unwrap();
    let mut buffer: Vec<u8> = vec![];
    id.pack_write(&mut buffer, PROTO_VERSION).unwrap();
    let mut pos = 0usize;
    let got = Identifier::pack_read(&buffer, &mut pos, PROTO_VERSION).unwrap();
    assert_eq!(got, id);

    // An on-wire string that is not an identifier is rejected.
    let mut buffer: Vec<u8> = vec![];
    "NOT AN ID".to_string().pack_write(&mut buffer, PROTO_VERSION).unwrap();
    let mut pos = 0usize;
    let r = Identifier::pack_read(&buffer, &mut pos, PROTO_VERSION);
    assert!(matches!(
        r,
        Err(WireError::Malformed(MalformedKind::InvalidIdentifier))
    ));
}

#[test]
fn component_cap_enforced() {
    let big = Component::from_json("x".repeat(262145));
    let mut buffer: Vec<u8> = vec![0xAB];
    assert!(matches!(
        big.pack_write(&mut buffer, PROTO_VERSION),
        Err(WireError::OverLimit)
    ));
    assert_eq!(buffer, vec![0xAB]);

    let fits = Component::from_json("y".repeat(262144));
    let mut buffer: Vec<u8> = vec![];
    assert!(fits.pack_write(&mut buffer, PROTO_VERSION).is_ok());
    let mut pos = 0usize;
    let got = Component::pack_read(&buffer, &mut pos, PROTO_VERSION).unwrap();
    assert_eq!(got, fits);
}
