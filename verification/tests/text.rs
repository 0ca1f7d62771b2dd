//! Exact expected values for the text helpers: JSON escaping, decimal and
//! hexadecimal rendering, UUIDs, the favicon data URI, and the status JSON.

use soulflame::cfg::build_favicon;
use soulflame::chat::{json_escape_str, json_string_of, Component};
use soulflame::protocol::server::status::{
    PlayerSample, ServerPlayers, ServerVersion, StatusResponse,
};
use soulflame::util::{dec_u64, hex_pad_string, i32_dec_string, i64_dec_string, uuid_string};

#[test]
fn decimal_rendering_exact() {
    assert_eq!(dec_u64(0), "0");
    assert_eq!(dec_u64(7), "7");
    assert_eq!(dec_u64(10), "10");
    assert_eq!(dec_u64(25565), "25565");
    assert_eq!(dec_u64(u64::MAX), "18446744073709551615");
    assert_eq!(i32_dec_string(0), "0");
    assert_eq!(i32_dec_string(-123), "-123");
    assert_eq!(i32_dec_string(i32::MIN), "-2147483648");
    assert_eq!(i32_dec_string(i32::MAX), "2147483647");
    assert_eq!(i64_dec_string(i64::MIN), "-9223372036854775808");
}

#[test]
fn hex_rendering_exact() {
    assert_eq!(hex_pad_string(0, 4), "0000");
    assert_eq!(hex_pad_string(0xdead, 4), "dead");
    assert_eq!(hex_pad_string(0x1, 8), "00000001");
}

#[test]
fn uuid_rendering_exact() {
    assert_eq!(
        uuid_string(0x0011223344556677_8899aabbccddeeff),
        "00112233-4455-6677-8899-aabbccddeeff"
    );
    assert_eq!(
        uuid_string(0),
        "00000000-0000-0000-0000-000000000000"
    );
}

#[test]
fn json_escaping_exact() {
    assert_eq!(json_escape_str("plain text"), "plain text");
    assert_eq!(json_escape_str("a\"b"), "a\\\"b");
    assert_eq!(json_escape_str("a\\b"), "a\\\\b");
    assert_eq!(json_escape_str("a\nb\rc\td"), "a\\nb\\rc\\td");
    assert_eq!(json_escape_str("\u{1}"), "\\u0001");
    assert_eq!(json_escape_str("\u{1f}"), "\\u001f");
    assert_eq!(json_string_of("hi"), "\"hi\"");
    assert_eq!(
        Component::plain("say \"hi\"").json(),
        "{\"text\":\"say \\\"hi\\\"\"}"
    );
}

#[test]
fn favicon_data_uri_exact() {
    // "PNG!" in base64 is UE5HIQ==.
    let uri = build_favicon(&vec![b'P', b'N', b'G', b'!']);
    assert_eq!(uri, "data:image/png;base64,UE5HIQ==");
    assert_eq!(build_favicon(&vec![]), "data:image/png;base64,");
}

#[test]
fn status_json_exact() {
    let status = StatusResponse::new(
        ServerVersion::new("Latest".to_string(), 759),
        ServerPlayers::new(
            20,
            1,
            vec![PlayerSample::new("steve".to_string(), 0x0011223344556677_8899aabbccddeeff)],
        ),
        Component::plain("hello"),
        "data:image/png;base64,AA==".to_string(),
    );
    let mut expected = String::new();
    expected.push_str("{\"version\":{\"name\":\"Latest\",\"protocol\":759},");
    expected.push_str("\"players\":{\"max\":20,\"online\":1,\"sample\":[");
    expected.push_str("{\"name\":\"steve\",\"id\":\"00112233-4455-6677-8899-aabbccddeeff\"}]},");
    expected.push_str("\"description\":{\"text\":\"hello\"},");
    expected.push_str("\"favicon\":\"data:image/png;base64,AA==\"}");
    assert_eq!(status.to_json(), expected);
}

#[test]
fn status_json_two_samples() {
    let status = StatusResponse::new(
        ServerVersion::new("Latest".to_string(), 759),
        ServerPlayers::new(
            10,
            2,
            vec![
                PlayerSample::new("a".to_string(), 0),
                PlayerSample::new("b".to_string(), 1),
            ],
        ),
        Component::plain("m"),
        "f".to_string(),
    );
    let json = status.to_json();
    assert!(json.contains(
        "{\"name\":\"a\",\"id\":\"00000000-0000-0000-0000-000000000000\"},\
         {\"name\":\"b\",\"id\":\"00000000-0000-0000-0000-000000000001\"}"
    ));
}
