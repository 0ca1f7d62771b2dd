//! Streaming, compression and encryption behaviour of the framers.

use soulflame::error::{FramingKind, WireError};
use soulflame::net_io::{PacketRead, PacketWrite, VarInt};
use soulflame::network::encode::{PacketDecoder, PacketEncoder};
use soulflame::network::proxy::PacketProxy;
use soulflame::protocol::client::handshake::{HandshakeState, InHandshake, PacketHandshakeIn};
use soulflame::protocol::client::status::{InStatus, PacketStatusInPing, PacketStatusInRequest};
use soulflame::protocol::server::status::{OutStatus, PacketStatusOutResponse};

const PROTO_VERSION: u32 = 759;

fn sample_handshake() -> InHandshake {
    InHandshake::PacketHandshakeIn(PacketHandshakeIn::new(
        759,
        "localhost".to_string(),
        25565,
        HandshakeState::Status,
    ))
}

#[test]
fn framing_across_chunks() {
    // One frame fed a byte at a time: exactly one read succeeds, on the
    // final byte, and yields the original packet.
    let packet = sample_handshake();
    let mut wire: Vec<u8> = vec![];
    let mut enc = PacketEncoder::new();
    enc.consume(&mut wire, &packet).unwrap();

    let mut dec = PacketDecoder::new();
    let n = wire.len();
    for (i, b) in wire.iter().enumerate() {
        dec.digest(&[*b]);
        let r = dec.read::<InHandshake>().unwrap();
        if i + 1 < n {
            assert!(r.is_none());
        } else {
            assert_eq!(r.unwrap(), packet);
        }
    }
    assert!(dec.read::<InHandshake>().unwrap().is_none());
}

#[test]
fn framing_many_packets_one_chunk() {
    // Several frames in one digest come back in order, then nothing.
    let pings: Vec<InStatus> = (0..5)
        .map(|i| InStatus::PacketStatusInPing(PacketStatusInPing::new(i * 1000 + 7)))
        .collect();
    let mut wire: Vec<u8> = vec![];
    let mut enc = PacketEncoder::new();
    for p in &pings {
        enc.consume(&mut wire, p).unwrap();
    }
    let mut dec = PacketDecoder::new();
    dec.digest(&wire);
    for p in &pings {
        assert_eq!(&dec.read::<InStatus>().unwrap().unwrap(), p);
    }
    assert!(dec.read::<InStatus>().unwrap().is_none());
}

#[test]
fn proxy_framing_roundtrip() {
    let packet = InStatus::PacketStatusInRequest(PacketStatusInRequest::new());
    let mut wire: Vec<u8> = vec![];
    let mut proxy = PacketProxy::new();
    proxy.encode(&mut wire, &packet).unwrap();

    let mut reader = PacketProxy::new();
    reader.accept(&wire[..1]);
    assert!(reader.next::<InStatus>().unwrap().is_none());
    reader.accept(&wire[1..]);
    assert_eq!(reader.next::<InStatus>().unwrap().unwrap(), packet);
    assert!(reader.next::<InStatus>().unwrap().is_none());
}

/// A status response packet whose whole encoded body has exactly `size`
/// bytes, when such a length prefix exists for it.
fn packet_of_body_size(size: usize) -> OutStatus {
    for k in size.saturating_sub(6)..=size {
        let p = OutStatus::PacketStatusOutResponse(PacketStatusOutResponse::new("x".repeat(k)));
        let mut b: Vec<u8> = vec![];
        p.pack_write(&mut b, PROTO_VERSION).unwrap();
        if b.len() == size {
            return p;
        }
    }
    panic!("no body of the requested size");
}

#[test]
fn compression_transparency_sizes() {
    let t: usize = 256;
    for size in [2usize, t - 1, t, t + 1, 100 * t] {
        let packet = packet_of_body_size(size);
        let mut wire: Vec<u8> = vec![];
        let mut enc = PacketEncoder::new();
        enc.set_compression(t);
        enc.consume(&mut wire, &packet).unwrap();

        let mut dec = PacketDecoder::new();
        dec.set_compression(t);
        dec.digest(&wire);
        assert_eq!(dec.read::<OutStatus>().unwrap().unwrap(), packet);
        assert!(dec.read::<OutStatus>().unwrap().is_none());
    }
}

#[test]
fn compression_below_threshold_marker() {
    // Threshold 256, body 100 bytes: the envelope carries data_len = 0 and
    // the raw body.
    let t: usize = 256;
    let packet = packet_of_body_size(100);
    let mut body: Vec<u8> = vec![];
    packet.pack_write(&mut body, PROTO_VERSION).unwrap();
    assert_eq!(body.len(), 100);

    let mut wire: Vec<u8> = vec![];
    let mut enc = PacketEncoder::new();
    enc.set_compression(t);
    enc.consume(&mut wire, &packet).unwrap();

    // Outer length 101 fits one VarInt byte; then the zero marker; then the
    // raw body.
    assert_eq!(wire[0], 101);
    assert_eq!(wire[1], 0);
    assert_eq!(&wire[2..], &body[..]);

    let mut dec = PacketDecoder::new();
    dec.set_compression(t);
    dec.digest(&wire);
    assert_eq!(dec.read::<OutStatus>().unwrap().unwrap(), packet);
}

#[test]
fn compression_above_threshold_deflates() {
    let t: usize = 64;
    let packet = packet_of_body_size(4096);
    let mut body: Vec<u8> = vec![];
    packet.pack_write(&mut body, PROTO_VERSION).unwrap();

    let mut wire: Vec<u8> = vec![];
    let mut enc = PacketEncoder::new();
    enc.set_compression(t);
    enc.consume(&mut wire, &packet).unwrap();
    // A run of identical characters deflates well below its raw size.
    assert!(wire.len() < body.len());

    let mut dec = PacketDecoder::new();
    dec.set_compression(t);
    dec.digest(&wire);
    assert_eq!(dec.read::<OutStatus>().unwrap().unwrap(), packet);
}

#[test]
fn encryption_continuity_across_packets() {
    // Encryption enabled after the first packet; the cipher state then
    // carries across every following packet in both directions.
    let key: [u8; 16] = [7; 16];
    let first = sample_handshake();
    let later: Vec<InStatus> = (0..3)
        .map(|i| InStatus::PacketStatusInPing(PacketStatusInPing::new(i - 1)))
        .collect();

    let mut enc = PacketEncoder::new();
    let mut dec = PacketDecoder::new();

    let mut wire: Vec<u8> = vec![];
    enc.consume(&mut wire, &first).unwrap();
    dec.digest(&wire);
    assert_eq!(dec.read::<InHandshake>().unwrap().unwrap(), first);

    enc.set_encryption(key);
    dec.set_encryption(key);
    for p in &later {
        let mut chunk: Vec<u8> = vec![];
        enc.consume(&mut chunk, p).unwrap();

        // The bytes on the wire are not the plaintext envelope.
        let mut plain = PacketEncoder::new();
        let mut plain_chunk: Vec<u8> = vec![];
        plain.consume(&mut plain_chunk, p).unwrap();
        assert_ne!(chunk, plain_chunk);

        // Split the ciphertext mid-chunk: the decoder's cipher state spans
        // the split.
        let mid = chunk.len() / 2;
        dec.digest(&chunk[..mid]);
        dec.digest(&chunk[mid..]);
        assert_eq!(&dec.read::<InStatus>().unwrap().unwrap(), p);
    }
}

#[test]
fn encryption_with_compression_roundtrip() {
    let key: [u8; 16] = [0x42; 16];
    let t: usize = 32;
    let packets: Vec<OutStatus> = vec![
        packet_of_body_size(16),
        packet_of_body_size(1000),
        packet_of_body_size(33),
    ];

    let mut enc = PacketEncoder::new();
    enc.set_encryption(key);
    enc.set_compression(t);
    let mut dec = PacketDecoder::new();
    dec.set_encryption(key);
    dec.set_compression(t);

    let mut wire: Vec<u8> = vec![];
    for p in &packets {
        enc.consume(&mut wire, p).unwrap();
    }
    for b in wire {
        dec.digest(&[b]);
    }
    for p in &packets {
        assert_eq!(&dec.read::<OutStatus>().unwrap().unwrap(), p);
    }
    assert!(dec.read::<OutStatus>().unwrap().is_none());
}

#[test]
fn framer_rejects_overlong_length_prefix() {
    // Six continuation bytes then a terminator: the length prefix itself
    // is overlong, and the framer must fail rather than wait.
    let mut dec = PacketDecoder::new();
    dec.digest(&[0x80, 0x80, 0x80, 0x80, 0x80, 0x80, 0x00]);
    let r = dec.read::<InStatus>();
    assert!(matches!(
        r,
        Err(WireError::Framing(FramingKind::VarIntTooLong))
    ));
}

#[test]
fn framer_rejects_trailing_garbage() {
    // A frame whose payload holds a whole ping plus one stray byte.
    let mut body: Vec<u8> = vec![];
    VarInt(0x01).pack_write(&mut body, PROTO_VERSION).unwrap();
    0i64.pack_write(&mut body, PROTO_VERSION).unwrap();
    body.push(0xEE);
    let mut wire: Vec<u8> = vec![];
    VarInt(body.len() as i32).pack_write(&mut wire, PROTO_VERSION).unwrap();
    wire.extend_from_slice(&body);
    let mut dec = PacketDecoder::new();
    dec.digest(&wire);
    assert!(matches!(
        dec.read::<InStatus>(),
        Err(WireError::Framing(FramingKind::TrailingGarbage))
    ));
}

#[test]
fn decompression_size_mismatch_rejected() {
    // Take a validly compressed frame and corrupt its declared size.
    let t: usize = 16;
    let packet = packet_of_body_size(200);
    let mut wire: Vec<u8> = vec![];
    let mut enc = PacketEncoder::new();
    enc.set_compression(t);
    enc.consume(&mut wire, &packet).unwrap();

    // Parse outer length, then rewrite the inner size varint to a wrong
    // nonzero value of the same width.
    let mut pos = 0usize;
    let outer = VarInt::pack_read(&wire, &mut pos, PROTO_VERSION).unwrap();
    let inner_start = pos;
    let inner = VarInt::pack_read(&wire, &mut pos, PROTO_VERSION).unwrap();
    assert!(inner.0 > 0);
    let mut wrong: Vec<u8> = vec![];
    VarInt(inner.0 + 1).pack_write(&mut wrong, PROTO_VERSION).unwrap();
    assert_eq!(wrong.len(), pos - inner_start);
    let mut tampered = wire.clone();
    tampered[inner_start..pos].copy_from_slice(&wrong);
    assert_eq!(outer.0 as usize, tampered.len() - inner_start);

    let mut dec = PacketDecoder::new();
    dec.set_compression(t);
    dec.digest(&tampered);
    assert!(matches!(
        dec.read::<OutStatus>(),
        Err(WireError::Framing(FramingKind::DecompressionSizeMismatch))
    ));
}
