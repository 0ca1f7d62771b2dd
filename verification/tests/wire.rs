//! Round trips and caps of the wire primitives.

use std::time::Instant;

use soulflame::error::{FramingKind, IoKind, MalformedKind, WireError};
use soulflame::net_io::{ByteArray, PacketRead, PacketWrite, VarInt, VarLong};
use soulflame::network::cipher::shared_secret_from_bytes;

const PROTO_VERSION: u32 = 759;

fn report_time(i: Instant) {
    let dur = Instant::now() - i;
    println!("Took {}mcs", dur.as_micros())
}

fn roundtrip_varint(v: i32) {
    let mut buffer: Vec<u8> = vec![];
    VarInt(v).pack_write(&mut buffer, PROTO_VERSION).unwrap();
    assert!(buffer.len() >= 1 && buffer.len() <= 5);
    let mut pos = 0usize;
    let got = VarInt::pack_read(&buffer, &mut pos, PROTO_VERSION).unwrap();
    assert_eq!(got, VarInt(v));
    assert_eq!(pos, buffer.len());
}

fn roundtrip_varlong(v: i64) {
    let mut buffer: Vec<u8> = vec![];
    VarLong(v).pack_write(&mut buffer, PROTO_VERSION).unwrap();
    assert!(buffer.len() >= 1 && buffer.len() <= 10);
    let mut pos = 0usize;
    let got = VarLong::pack_read(&buffer, &mut pos, PROTO_VERSION).unwrap();
    assert_eq!(got, VarLong(v));
    assert_eq!(pos, buffer.len());
}

#[test]
fn packet_io() {
    let vi = "Test".to_string();
    let mut buffer: Vec<u8> = vec![];
    vi.pack_write(&mut buffer, PROTO_VERSION).unwrap();
    println!("{:?}", buffer);
    let mut pos = 0usize;
    let got = String::pack_read(&buffer, &mut pos, PROTO_VERSION).unwrap();
    println!("{:?} - {:?}", vi, got);
    assert_eq!(vi, got);
}

#[test]
fn packet_vec() {
    let start = Instant::now();

    let vec = vec![
        "string1".to_string(),
        "string2".to_string(),
        "string3".to_string(),
    ];
    let mut buffer: Vec<u8> = vec![];
    vec.pack_write(&mut buffer, PROTO_VERSION).unwrap();
    println!("{:?}", buffer);
    let mut pos = 0usize;
    let got = Vec::<String>::pack_read(&buffer, &mut pos, PROTO_VERSION).unwrap();
    println!("{:?} - {:?}", vec, got);
    assert_eq!(vec, got);

    report_time(start);
}

#[test]
fn packet_test() {
    let start = Instant::now();

    report_time(start);
}

#[test]
fn varint_full_range_samples() {
    for v in [
        0i32,
        1,
        -1,
        127,
        128,
        255,
        16383,
        16384,
        2097151,
        2097152,
        i32::MAX,
        i32::MIN,
        i32::MAX - 1,
        i32::MIN + 1,
        -128,
        -32768,
        759,
    ] {
        roundtrip_varint(v);
    }
    for k in 0..31 {
        roundtrip_varint((1i64 << k) as i32 - 1);
        roundtrip_varint(-((1i64 << k) as i32));
    }
}

#[test]
fn varint_exact_encodings() {
    let mut b: Vec<u8> = vec![];
    VarInt(0).pack_write(&mut b, PROTO_VERSION).unwrap();
    assert_eq!(b, vec![0x00]);
    b.clear();
    VarInt(127).pack_write(&mut b, PROTO_VERSION).unwrap();
    assert_eq!(b, vec![0x7f]);
    b.clear();
    VarInt(128).pack_write(&mut b, PROTO_VERSION).unwrap();
    assert_eq!(b, vec![0x80, 0x01]);
    b.clear();
    VarInt(-1).pack_write(&mut b, PROTO_VERSION).unwrap();
    assert_eq!(b, vec![0xff, 0xff, 0xff, 0xff, 0x0f]);
    b.clear();
    VarInt(2147483647).pack_write(&mut b, PROTO_VERSION).unwrap();
    assert_eq!(b, vec![0xff, 0xff, 0xff, 0xff, 0x07]);
}

#[test]
fn varlong_full_range_samples() {
    for v in [0i64, 1, -1, 127, 128, i64::MAX, i64::MIN, 0x0102030405060708] {
        roundtrip_varlong(v);
    }
    for k in 0..63 {
        roundtrip_varlong((1i128 << k) as i64 - 1);
        roundtrip_varlong(-((1i128 << k) as i64));
    }
}

#[test]
fn fixed_width_roundtrips() {
    let mut b: Vec<u8> = vec![];
    0xBEEFu16.pack_write(&mut b, PROTO_VERSION).unwrap();
    assert_eq!(b, vec![0xBE, 0xEF]);
    let mut pos = 0usize;
    assert_eq!(u16::pack_read(&b, &mut pos, PROTO_VERSION).unwrap(), 0xBEEF);

    let mut b: Vec<u8> = vec![];
    0x0102030405060708i64.pack_write(&mut b, PROTO_VERSION).unwrap();
    assert_eq!(b, vec![1, 2, 3, 4, 5, 6, 7, 8]);
    let mut pos = 0usize;
    assert_eq!(
        i64::pack_read(&b, &mut pos, PROTO_VERSION).unwrap(),
        0x0102030405060708
    );

    let mut b: Vec<u8> = vec![];
    (-2i8).pack_write(&mut b, PROTO_VERSION).unwrap();
    let mut pos = 0usize;
    assert_eq!(i8::pack_read(&b, &mut pos, PROTO_VERSION).unwrap(), -2);

    let mut b: Vec<u8> = vec![];
    (-300i16).pack_write(&mut b, PROTO_VERSION).unwrap();
    let mut pos = 0usize;
    assert_eq!(i16::pack_read(&b, &mut pos, PROTO_VERSION).unwrap(), -300);

    let mut b: Vec<u8> = vec![];
    0xDEADBEEFu32.pack_write(&mut b, PROTO_VERSION).unwrap();
    let mut pos = 0usize;
    assert_eq!(u32::pack_read(&b, &mut pos, PROTO_VERSION).unwrap(), 0xDEADBEEF);

    let mut b: Vec<u8> = vec![];
    (-77i32).pack_write(&mut b, PROTO_VERSION).unwrap();
    let mut pos = 0usize;
    assert_eq!(i32::pack_read(&b, &mut pos, PROTO_VERSION).unwrap(), -77);

    let mut b: Vec<u8> = vec![];
    u64::MAX.pack_write(&mut b, PROTO_VERSION).unwrap();
    let mut pos = 0usize;
    assert_eq!(u64::pack_read(&b, &mut pos, PROTO_VERSION).unwrap(), u64::MAX);

    let uuid: u128 = 0x0011223344556677_8899aabbccddeeff;
    let mut b: Vec<u8> = vec![];
    uuid.pack_write(&mut b, PROTO_VERSION).unwrap();
    assert_eq!(b.len(), 16);
    assert_eq!(b[0], 0x00);
    assert_eq!(b[15], 0xff);
    let mut pos = 0usize;
    assert_eq!(u128::pack_read(&b, &mut pos, PROTO_VERSION).unwrap(), uuid);

    let mut b: Vec<u8> = vec![];
    (-1i128).pack_write(&mut b, PROTO_VERSION).unwrap();
    let mut pos = 0usize;
    assert_eq!(i128::pack_read(&b, &mut pos, PROTO_VERSION).unwrap(), -1);
}

#[test]
fn bool_and_option_roundtrip() {
    let mut b: Vec<u8> = vec![];
    true.pack_write(&mut b, PROTO_VERSION).unwrap();
    false.pack_write(&mut b, PROTO_VERSION).unwrap();
    assert_eq!(b, vec![1, 0]);
    let mut pos = 0usize;
    assert_eq!(bool::pack_read(&b, &mut pos, PROTO_VERSION).unwrap(), true);
    assert_eq!(bool::pack_read(&b, &mut pos, PROTO_VERSION).unwrap(), false);

    let some: Option<i64> = Some(42);
    let none: Option<i64> = None;
    let mut b: Vec<u8> = vec![];
    some.pack_write(&mut b, PROTO_VERSION).unwrap();
    none.pack_write(&mut b, PROTO_VERSION).unwrap();
    let mut pos = 0usize;
    assert_eq!(
        Option::<i64>::pack_read(&b, &mut pos, PROTO_VERSION).unwrap(),
        Some(42)
    );
    assert_eq!(
        Option::<i64>::pack_read(&b, &mut pos, PROTO_VERSION).unwrap(),
        None
    );
}

#[test]
fn option_bad_tag_rejected() {
    let b: Vec<u8> = vec![2, 0, 0, 0, 0, 0, 0, 0, 42];
    let mut pos = 0usize;
    let r = Option::<i64>::pack_read(&b, &mut pos, PROTO_VERSION);
    assert!(matches!(
        r,
        Err(WireError::Malformed(MalformedKind::BadOptionTag))
    ));
}

#[test]
fn string_cap_boundary() {
    let ok = "a".repeat(32767);
    let mut b: Vec<u8> = vec![];
    assert!(ok.pack_write(&mut b, PROTO_VERSION).is_ok());
    let mut pos = 0usize;
    assert_eq!(String::pack_read(&b, &mut pos, PROTO_VERSION).unwrap(), ok);

    let too_long = "a".repeat(32768);
    let mut b: Vec<u8> = vec![];
    assert!(matches!(
        too_long.pack_write(&mut b, PROTO_VERSION),
        Err(WireError::OverLimit)
    ));
}

#[test]
fn string_bad_utf8_rejected() {
    // A length prefix of 2, then an invalid UTF-8 pair.
    let b: Vec<u8> = vec![2, 0xC3, 0x28];
    let mut pos = 0usize;
    let r = String::pack_read(&b, &mut pos, PROTO_VERSION);
    assert!(matches!(
        r,
        Err(WireError::Malformed(MalformedKind::BadUtf8))
    ));
}

#[test]
fn string_truncated_rejected() {
    let b: Vec<u8> = vec![5, b'a', b'b'];
    let mut pos = 0usize;
    let r = String::pack_read(&b, &mut pos, PROTO_VERSION);
    assert!(matches!(r, Err(WireError::Io(IoKind::UnexpectedEof))));
}

#[test]
fn varint_six_continuations_rejected() {
    let b: Vec<u8> = vec![0x80, 0x80, 0x80, 0x80, 0x80, 0x80, 0x00];
    let mut pos = 0usize;
    let r = VarInt::pack_read(&b, &mut pos, PROTO_VERSION);
    assert!(matches!(
        r,
        Err(WireError::Framing(FramingKind::VarIntTooLong))
    ));
}

#[test]
fn array_cap_rejected() {
    // A count of 2^20 + 1 exceeds the array cap.
    let mut b: Vec<u8> = vec![];
    VarInt(0x100001).pack_write(&mut b, PROTO_VERSION).unwrap();
    let mut pos = 0usize;
    let r = Vec::<i64>::pack_read(&b, &mut pos, PROTO_VERSION);
    assert!(matches!(r, Err(WireError::OverLimit)));
}

#[test]
fn byte_array_reads_to_end() {
    let payload = ByteArray(vec![9, 8, 7]);
    let mut b: Vec<u8> = vec![];
    payload.pack_write(&mut b, PROTO_VERSION).unwrap();
    assert_eq!(b, vec![9, 8, 7]);
    let mut pos = 0usize;
    let got = ByteArray::pack_read(&b, &mut pos, PROTO_VERSION).unwrap();
    assert_eq!(got.0, vec![9, 8, 7]);
    assert_eq!(pos, 3);
}

#[test]
fn varint_conversions() {
    assert_eq!(VarInt::from(7), VarInt(7));
    assert_eq!(i32::from(VarInt(-3)), -3);
    assert_eq!(VarLong::from(9i64), VarLong(9));
    assert_eq!(i64::from(VarLong(-4)), -4);
}

#[test]
fn shared_secret_size_checked() {
    let ok = shared_secret_from_bytes(&vec![1u8; 16]).unwrap();
    assert_eq!(ok, [1u8; 16]);
    assert!(matches!(
        shared_secret_from_bytes(&vec![1u8; 15]),
        Err(WireError::Cipher)
    ));
    assert!(matches!(
        shared_secret_from_bytes(&vec![1u8; 17]),
        Err(WireError::Cipher)
    ));
}

#[test]
fn write_failure_leaves_buffer_untouched() {
    // An over-cap string fails with OverLimit and writes nothing: the cap
    // check precedes the length prefix.
    let mut b: Vec<u8> = vec![1, 2, 3];
    let too_long = "a".repeat(32768);
    assert!(matches!(
        too_long.pack_write(&mut b, PROTO_VERSION),
        Err(WireError::OverLimit)
    ));
    assert_eq!(b, vec![1, 2, 3]);

    // A vector with an over-cap element reports that element's error and
    // also leaves the buffer untouched, though a well-formed element
    // precedes the bad one.
    let v = vec!["ok".to_string(), "a".repeat(32768)];
    assert!(matches!(
        v.pack_write(&mut b, PROTO_VERSION),
        Err(WireError::OverLimit)
    ));
    assert_eq!(b, vec![1, 2, 3]);

    // A vector over the element-count cap fails the same way.
    let big: Vec<i64> = vec![0; 0x10_0001];
    assert!(matches!(
        big.pack_write(&mut b, PROTO_VERSION),
        Err(WireError::OverLimit)
    ));
    assert_eq!(b, vec![1, 2, 3]);
}
