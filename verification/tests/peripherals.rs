//! Tests of the peripheral utilities: session identifiers, the color
//! codec, byte-level primitives, signing, tokens, and configuration
//! tiers.

use msgkit::{
    make_memory_limits, make_udp_memory_limits, ByteReader, HmacSigner, MultiColor,
    MultiColorDecodeError, MultiColorParseError, RGBColor, SessionId, TokenValidationError,
    TokenIssuer,
};

#[test]
fn session_id_round_trip() {
    let id = SessionId::from_parts(7, -12345, 0x00abcdef);
    assert_eq!(id.server_id(), 7);
    assert_eq!(id.level_id(), -12345);
    assert_eq!(id.room_id(), 0x00abcdef);
    assert!(!id.is_zero());
    assert_eq!(SessionId::from(id.as_u64()), id);
}

#[test]
fn session_id_masks_room_bits() {
    let id = SessionId::from_parts(1, 2, 0xff00_0003);
    assert_eq!(id.room_id(), 3);
}

#[test]
fn session_id_zero() {
    let id = SessionId::from_parts(0, 0, 0);
    assert!(id.is_zero());
    assert_eq!(id.as_u64(), 0);
}

#[test]
fn hex_color_round_trip() {
    let c = RGBColor::new(0xff, 0x00, 0xaa);
    assert_eq!(c.to_hex_string(true).as_str(), "#ff00aa");
    assert_eq!(c.to_hex_string(false).as_str(), "ff00aa");
    assert_eq!(RGBColor::from_hex_string("#ff00aa"), Some(c));
    assert_eq!(RGBColor::from_hex_string("FF00AA"), Some(c));
    assert_eq!(RGBColor::from_hex_string("ff00a"), None);
    assert_eq!(RGBColor::from_hex_string("ff00ag"), None);
}

#[test]
fn multi_color_wire_round_trip() {
    let cases = vec![
        MultiColor::Static(RGBColor::new(1, 2, 3)),
        MultiColor::Tinting(vec![RGBColor::new(9, 8, 7), RGBColor::new(6, 5, 4)]),
        MultiColor::Gradient(vec![
            RGBColor::new(0, 0, 0),
            RGBColor::new(255, 255, 255),
            RGBColor::new(17, 34, 51),
        ]),
    ];
    for m in cases {
        let mut w = msgkit::ByteWriter::new();
        m.encode(&mut w);
        let bytes = w.into_vec();
        assert_eq!(bytes.len(), m.encoded_len());
        let mut reader = ByteReader::new(&bytes);
        let decoded = MultiColor::decode(&mut reader).unwrap();
        assert_eq!(decoded, m);
        assert_eq!(reader.position(), bytes.len());
    }
}

#[test]
fn multi_color_encoded_bytes_exact() {
    let m = MultiColor::Static(RGBColor::new(0x11, 0x22, 0x33));
    let mut w = msgkit::ByteWriter::new();
    m.encode(&mut w);
    assert_eq!(w.into_vec(), vec![0x40, 0x11, 0x22, 0x33]);
    let m = MultiColor::Tinting(vec![RGBColor::new(1, 2, 3)]);
    let mut w = msgkit::ByteWriter::new();
    m.encode(&mut w);
    assert_eq!(w.into_vec(), vec![0x81, 1, 2, 3]);
}

#[test]
fn multi_color_invalid_type_header() {
    let bytes = vec![0x00u8, 1, 2, 3];
    let mut reader = ByteReader::new(&bytes);
    assert_eq!(
        MultiColor::decode(&mut reader),
        Err(MultiColorDecodeError::InvalidType)
    );
}

#[test]
fn multi_color_truncated() {
    let bytes = vec![0x82u8, 1, 2, 3];
    let mut reader = ByteReader::new(&bytes);
    match MultiColor::decode(&mut reader) {
        Err(MultiColorDecodeError::Decode(_)) => {}
        other => panic!("expected a decode error, got {:?}", other),
    }
}

#[test]
fn multi_color_string_round_trip() {
    let m = MultiColor::Gradient(vec![RGBColor::new(10, 20, 30), RGBColor::new(40, 50, 60)]);
    let text = m.encode_to_string();
    let back = MultiColor::decode_from_string(&text).unwrap();
    assert_eq!(back, m);
}

#[test]
fn multi_color_string_rejects_bad_base64() {
    assert_eq!(
        MultiColor::decode_from_string("!!not base64!!"),
        Err(MultiColorDecodeError::Base64)
    );
}

#[test]
fn multi_color_parse_human() {
    assert_eq!(
        MultiColor::parse_from_human_str("ff0000"),
        Ok(MultiColor::Static(RGBColor::new(255, 0, 0)))
    );
    assert_eq!(
        MultiColor::parse_from_human_str("ff0000 > 00ff00"),
        Ok(MultiColor::Tinting(vec![
            RGBColor::new(255, 0, 0),
            RGBColor::new(0, 255, 0),
        ]))
    );
    assert_eq!(
        MultiColor::parse_from_human_str("#ff0000|#0000ff"),
        Ok(MultiColor::Gradient(vec![
            RGBColor::new(255, 0, 0),
            RGBColor::new(0, 0, 255),
        ]))
    );
    assert_eq!(
        MultiColor::parse_from_human_str("ff0000 > nope"),
        Err(MultiColorParseError::InvalidHex(String::from("nope")))
    );
    assert_eq!(
        MultiColor::parse_from_human_str("zz"),
        Err(MultiColorParseError::InvalidHex(String::from("zz")))
    );
}

#[test]
fn byte_writer_reader_round_trip() {
    let mut w = msgkit::ByteWriter::new();
    w.write_u8(7);
    w.write_u16(0x1234);
    w.write_u32(0xdeadbeef);
    w.write_i32(-5);
    w.write_i64(-1_000_000_007);
    w.write_u64(u64::MAX);
    w.write_string_u8("hi");
    w.write_string_u16("there");
    let bytes = w.into_vec();
    let mut r = ByteReader::new(&bytes);
    assert_eq!(r.read_u8(), Ok(7));
    assert_eq!(r.read_u16(), Ok(0x1234));
    assert_eq!(r.read_u32(), Ok(0xdeadbeef));
    assert_eq!(r.read_i32(), Ok(-5));
    assert_eq!(r.read_i64(), Ok(-1_000_000_007));
    assert_eq!(r.read_u64(), Ok(u64::MAX));
    assert_eq!(r.read_string_u8().unwrap(), "hi");
    assert_eq!(r.read_string_u16().unwrap(), "there");
    assert_eq!(r.remaining_len(), 0);
}

#[test]
fn varuint_round_trip() {
    for v in [0u64, 1, 127, 128, 300, 16383, 16384, 1_048_576, u64::MAX] {
        let mut w = msgkit::ByteWriter::new();
        w.write_varuint(v);
        let bytes = w.into_vec();
        let mut r = ByteReader::new(&bytes);
        assert_eq!(r.read_varuint(), Ok(v));
        assert_eq!(r.remaining_len(), 0);
    }
    let mut w = msgkit::ByteWriter::new();
    w.write_varuint(300);
    assert_eq!(w.into_vec(), vec![0xac, 0x02]);
}

const TEST_KEY: &str = "000102030405060708090a0b0c0d0e0f101112131415161718191a1b1c1d1e1f";

#[test]
fn hmac_sign_validate() {
    let signer = HmacSigner::new(TEST_KEY).unwrap();
    let sig = signer.sign(b"hello");
    assert!(signer.validate(b"hello", &sig));
    assert!(!signer.validate(b"hullo", &sig));
    let mut bad = sig;
    bad[0] ^= 1;
    assert!(!signer.validate(b"hello", &bad));
}

#[test]
fn hmac_rejects_bad_key() {
    assert!(HmacSigner::new("not hex").is_err());
    assert!(HmacSigner::new("00ff").is_err());
    // Upper-case digits decode to the same key.
    let upper = TEST_KEY.to_uppercase();
    let s1 = HmacSigner::new(TEST_KEY).unwrap().sign(b"x");
    let s2 = HmacSigner::new(&upper).unwrap().sign(b"x");
    assert_eq!(s1, s2);
}

#[test]
fn token_generate_validate() {
    let issuer = TokenIssuer::new(TEST_KEY, 3600).unwrap();
    let token = issuer.generate(42, 99, "alice", "mod,admin");
    let data = issuer.validate(&token).unwrap();
    assert_eq!(data.account_id, 42);
    assert_eq!(data.user_id, 99);
    assert_eq!(data.username, "alice");
    assert_eq!(data.roles_str.as_deref(), Some("mod,admin"));
    let matched = issuer.validate_match(&token, 42).unwrap();
    assert_eq!(matched.account_id, 42);
    assert_eq!(
        issuer.validate_match(&token, 43),
        Err(TokenValidationError::AccountMismatch)
    );
}

#[test]
fn token_validate_match_at_outcomes() {
    // A token with a fixed issue time, assembled by hand and signed under
    // the issuer's key, so every clock outcome is deterministic.
    let issuer = TokenIssuer::new(TEST_KEY, 3600).unwrap();
    let signer = HmacSigner::new(TEST_KEY).unwrap();
    let mut w = msgkit::ByteWriter::new();
    w.write_u8(2);
    w.write_i64(5000);
    w.write_i32(7);
    w.write_i32(8);
    w.write_string_u8("eve");
    w.write_string_u16("x");
    let sig = signer.sign(w.written());
    let engine = &base64::engine::general_purpose::URL_SAFE_NO_PAD;
    let token = format!(
        "{}.{}",
        base64::Engine::encode(engine, w.written()),
        base64::Engine::encode(engine, sig)
    );
    // Inside the window, with the matching account: the certified data.
    let data = issuer.validate_match_at(&token, 7, 6000).unwrap();
    assert_eq!(data.account_id, 7);
    assert_eq!(data.user_id, 8);
    assert_eq!(data.username, "eve");
    assert_eq!(data.roles_str.as_deref(), Some("x"));
    // A valid token naming another account is a mismatch.
    assert_eq!(
        issuer.validate_match_at(&token, 9, 6000),
        Err(TokenValidationError::AccountMismatch)
    );
    // A validation error propagates unchanged, before any account check.
    assert_eq!(
        issuer.validate_match_at(&token, 7, 9999),
        Err(TokenValidationError::Expired)
    );
    assert_eq!(
        issuer.validate_match_at(&token, 9, 9999),
        Err(TokenValidationError::Expired)
    );
}

#[test]
fn token_empty_roles_is_none() {
    let issuer = TokenIssuer::new(TEST_KEY, 3600).unwrap();
    let token = issuer.generate(1, 2, "bob", "");
    let data = issuer.validate(&token).unwrap();
    assert_eq!(data.roles_str, None);
}

#[test]
fn token_rejects_bad_format_and_signature() {
    let issuer = TokenIssuer::new(TEST_KEY, 3600).unwrap();
    assert_eq!(
        issuer.validate("no dot here"),
        Err(TokenValidationError::InvalidFormat)
    );
    let token = issuer.generate(1, 2, "bob", "");
    let (data_part, _) = token.split_once('.').unwrap();
    let forged = format!("{}.{}", data_part, "AAAAAAAAAAAAAAAAAAAAAAAAAAAAAAAAAAAAAAAAAAA");
    match issuer.validate(&forged) {
        Err(TokenValidationError::InvalidSignature) | Err(TokenValidationError::InvalidBase64) => {}
        other => panic!("expected a signature error, got {:?}", other),
    }
    // A token signed under another key never validates.
    let other_issuer = TokenIssuer::new(
        "ffeeddccbbaa99887766554433221100ffeeddccbbaa99887766554433221100",
        3600,
    )
    .unwrap();
    let foreign = other_issuer.generate(1, 2, "bob", "");
    assert_eq!(
        issuer.validate(&foreign),
        Err(TokenValidationError::InvalidSignature)
    );
}

#[test]
fn token_version_and_expiry_checked() {
    let issuer = TokenIssuer::new(TEST_KEY, 3600).unwrap();
    // A payload with the wrong version byte.
    let mut w = msgkit::ByteWriter::new();
    w.write_u8(3);
    let r = msgkit::parse_token_payload(w.written(), 1000, 3600);
    assert_eq!(r, Err(TokenValidationError::UnsupportedVersion(3)));
    // A well-formed payload whose issue time lies in the future.
    let mut w = msgkit::ByteWriter::new();
    w.write_u8(2);
    w.write_i64(5000);
    w.write_i32(1);
    w.write_i32(2);
    w.write_string_u8("bob");
    w.write_string_u16("");
    assert_eq!(
        msgkit::parse_token_payload(w.written(), 1000, 3600),
        Err(TokenValidationError::Expired)
    );
    // The same payload inside the window parses.
    let data = msgkit::parse_token_payload(w.written(), 6000, 3600).unwrap();
    assert_eq!(data.account_id, 1);
    assert_eq!(data.username, "bob");
    // And past the window it is expired again.
    assert_eq!(
        msgkit::parse_token_payload(w.written(), 9000, 3600),
        Err(TokenValidationError::Expired)
    );
    let token = issuer.generate(1, 2, "bob", "");
    assert!(issuer.validate(&token).is_ok());
}

#[test]
fn token_invalid_base64_part() {
    let issuer = TokenIssuer::new(TEST_KEY, 3600).unwrap();
    assert_eq!(
        issuer.validate("!!!.AAAA"),
        Err(TokenValidationError::InvalidBase64)
    );
}

#[test]
fn string_read_rejects_invalid_utf8() {
    let bytes = vec![2u8, 0xff, 0xfe];
    let mut r = ByteReader::new(&bytes);
    assert_eq!(r.read_string_u8(), Err(msgkit::ByteReadError::InvalidUtf8));
}

#[test]
fn token_username_capacity() {
    let mut w = msgkit::ByteWriter::new();
    w.write_u8(2);
    w.write_i64(0);
    w.write_i32(1);
    w.write_i32(2);
    w.write_string_u8("averyveryverylongusername");
    w.write_string_u16("");
    assert_eq!(
        msgkit::parse_token_payload(w.written(), 0, 3600),
        Err(TokenValidationError::UsernameTooLong)
    );
}

#[test]
fn memory_limit_tiers() {
    assert_eq!(make_memory_limits(1), (32768, 65536, None, None));
    assert_eq!(make_memory_limits(0), make_memory_limits(1));
    assert_eq!(make_memory_limits(99), make_memory_limits(11));
    assert_eq!(
        make_memory_limits(9),
        (16777216, 134217728, Some(524288), Some(2097152))
    );
    assert_eq!(make_udp_memory_limits(1), (1500, 4, 32));
    assert_eq!(make_udp_memory_limits(7), (1500, 32, 8192));
    assert_eq!(make_udp_memory_limits(0), make_udp_memory_limits(1));
}

#[test]
fn icon_data_default_values() {
    let d = msgkit::PlayerIconData::default();
    assert_eq!(d.cube, 0);
    assert_eq!(d.death_effect, 1);
    assert_eq!(d.trail, 255);
    assert_eq!(d.ship_trail, 255);
}

#[test]
fn multi_color_default_is_white() {
    let m = MultiColor::default();
    assert_eq!(m, MultiColor::Static(RGBColor::new(255, 255, 255)));
}
