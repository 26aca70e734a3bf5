//! End-to-end tests of the encode and decode pipelines.

use msgkit::{
    decode_message, Allocator, encode_message, encode_message_dyn, encode_message_unsafe,
    encode_message_with, encode_with_builder, BuildFault, CapnpHeapAlloc, DataDecodeError,
    DispatchTable, EncodeMessageError, Message, MessageBuilder, PlayerDisplayData, PlayerIconData,
    UserSettings,
};

fn sample_icons() -> PlayerIconData {
    PlayerIconData {
        cube: 13,
        ship: -2,
        ball: 0,
        ufo: 44,
        wave: 7,
        robot: 0,
        spider: 21,
        swing: 1,
        jetpack: 3,
        color1: 12,
        color2: 104,
        glow_color: 12,
        death_effect: 4,
        trail: 255,
        ship_trail: 2,
    }
}

fn all_table() -> DispatchTable {
    DispatchTable {
        icon_data: true,
        display_data: true,
        settings: true,
    }
}

#[test]
fn round_trip_icon_data() {
    let m = Message::IconData(sample_icons());
    let frame = encode_message_dyn(&m);
    let (decoded, consumed) = decode_message(&frame, &all_table()).unwrap();
    assert_eq!(decoded, m);
    assert_eq!(consumed, frame.len());
}

#[test]
fn round_trip_display_data() {
    let m = Message::DisplayData(PlayerDisplayData {
        account_id: -7,
        user_id: 123456,
        username: String::from("alice"),
        icons: sample_icons(),
    });
    let frame = encode_message_dyn(&m);
    let (decoded, consumed) = decode_message(&frame, &all_table()).unwrap();
    assert_eq!(decoded, m);
    assert_eq!(consumed, frame.len());
}

#[test]
fn round_trip_settings() {
    let m = Message::Settings(UserSettings {
        hide_in_level: true,
        hide_in_menus: false,
        hide_roles: true,
    });
    let frame = encode_message(32, &m).unwrap();
    let (decoded, _) = decode_message(&frame, &all_table()).unwrap();
    assert_eq!(decoded, m);
}

#[test]
fn round_trip_ignores_trailing_bytes() {
    let m = Message::IconData(sample_icons());
    let mut frame = encode_message_dyn(&m);
    let consumed_expected = frame.len();
    frame.extend_from_slice(&[0xde, 0xad, 0xbe, 0xef]);
    let (decoded, consumed) = decode_message(&frame, &all_table()).unwrap();
    assert_eq!(decoded, m);
    assert_eq!(consumed, consumed_expected);
}

#[test]
fn estimated_capacity_example() {
    // An icon message serializes to exactly 40 unpacked bytes; encode it
    // with a 64-byte estimate and confirm the prefix says 40 and the
    // handler for the constructed variant runs exactly once.
    let m = Message::IconData(sample_icons());
    let frame = encode_message(64, &m).unwrap();
    assert_eq!(frame[0], 40);
    let (decoded, _) = decode_message(&frame, &all_table()).unwrap();
    let mut icon_handled = 0;
    let mut other_handled = 0;
    match &decoded {
        Message::IconData(d) => {
            assert_eq!(*d, sample_icons());
            icon_handled += 1;
        }
        _ => {
            other_handled += 1;
        }
    }
    assert_eq!(icon_handled, 1);
    assert_eq!(other_handled, 0);
}

#[test]
fn too_long_frame_rejected() {
    // A frame claiming an unpacked length of 2,000,000 bytes is rejected
    // with the ceiling error before any unpack attempt.
    let mut w = msgkit::ByteWriter::new();
    w.write_varuint(2_000_000);
    let input = w.into_vec();
    let r = decode_message(&input, &all_table());
    assert_eq!(r, Err(DataDecodeError::MessageTooLong(2_000_000)));
}

#[test]
fn ceiling_boundary() {
    // One past the 1 MiB ceiling is rejected as too long; the ceiling
    // itself passes the length check and fails later on the missing body.
    let mut w = msgkit::ByteWriter::new();
    w.write_varuint(1_048_577);
    assert_eq!(
        decode_message(&w.into_vec(), &all_table()),
        Err(DataDecodeError::MessageTooLong(1_048_577))
    );
    let mut w = msgkit::ByteWriter::new();
    w.write_varuint(1_048_576);
    assert_eq!(
        decode_message(&w.into_vec(), &all_table()),
        Err(DataDecodeError::InvalidStructure)
    );
}

#[test]
fn unknown_discriminant_rejected() {
    // A hand-built frame whose root word holds discriminant 7: the
    // unpacked root word is [7,0,0,0,0,0,0,0], whose packed form is the
    // tag byte 0x01 followed by the byte 7.
    let input = vec![8u8, 0x01, 7];
    let r = decode_message(&input, &all_table());
    assert_eq!(r, Err(DataDecodeError::InvalidDiscriminant));
}

#[test]
fn unhandled_variant_rejected() {
    let m = Message::Settings(UserSettings::default());
    let frame = encode_message_dyn(&m);
    let table = DispatchTable {
        icon_data: true,
        display_data: true,
        settings: false,
    };
    assert_eq!(
        decode_message(&frame, &table),
        Err(DataDecodeError::NoMessageHandler)
    );
    assert!(!table.is_complete());
    assert!(all_table().is_complete());
}

#[test]
fn malformed_length_prefix_rejected() {
    // A lone continuation byte never finishes the varuint.
    let input = vec![0x80u8];
    match decode_message(&input, &all_table()) {
        Err(DataDecodeError::InvalidBinary(_)) => {}
        other => panic!("expected InvalidBinary, got {:?}", other),
    }
}

#[test]
fn truncated_packed_data_rejected() {
    // The prefix claims 16 unpacked bytes but no packed data follows.
    let input = vec![16u8];
    assert_eq!(
        decode_message(&input, &all_table()),
        Err(DataDecodeError::InvalidStructure)
    );
}

#[test]
fn inline_capacity_fault() {
    // The message needs 40 bytes; a 32-byte inline store faults and a
    // 40-byte one succeeds.
    let m = Message::IconData(sample_icons());
    match encode_message_unsafe::<32>(&m) {
        Err(EncodeMessageError::ConstructionFailed(_)) => {}
        other => panic!("expected ConstructionFailed, got {:?}", other),
    }
    let frame = encode_message_unsafe::<40>(&m).unwrap();
    let (decoded, _) = decode_message(&frame, &all_table()).unwrap();
    assert_eq!(decoded, m);
}

#[test]
fn construction_fault_is_contained() {
    // A construction closure that gives up yields the typed error, and
    // the same worker goes on to encode the next message.
    let mut alloc = CapnpHeapAlloc::new();
    let r = encode_with_builder(&mut alloc, 8, |_b: MessageBuilder| {
        Err(BuildFault::Aborted(String::from("synthetic failure")))
    });
    match r {
        Err(EncodeMessageError::ConstructionFailed(BuildFault::Aborted(msg))) => {
            assert_eq!(msg, "synthetic failure");
        }
        other => panic!("expected ConstructionFailed, got {:?}", other),
    }
    let m = Message::IconData(sample_icons());
    alloc.deallocate_segment(Vec::new());
    let frame = encode_message_with(&mut alloc, 5, &m).unwrap();
    let (decoded, _) = decode_message(&frame, &all_table()).unwrap();
    assert_eq!(decoded, m);
}

#[test]
fn closure_built_message_round_trips() {
    let m = Message::Settings(UserSettings {
        hide_in_level: false,
        hide_in_menus: true,
        hide_roles: false,
    });
    let mut alloc = CapnpHeapAlloc::new();
    let frame = encode_with_builder(&mut alloc, 2, |mut b: MessageBuilder| match b.init_root(&m) {
        Ok(()) => Ok(b),
        Err(f) => Err(f),
    })
    .unwrap();
    let (decoded, _) = decode_message(&frame, &all_table()).unwrap();
    assert_eq!(decoded, m);
}

#[test]
fn oversized_username_field_rejected() {
    // A hand-built display-data frame whose username length byte claims
    // 40 bytes, past the 32-byte capacity. The unpacked buffer is 88
    // bytes: the root word holds discriminant 1, and the length byte sits
    // at offset 16; everything else is zero. Packed, that is one tag-and-
    // byte pair per nonzero word and a bare zero tag for each zero word.
    let input = vec![
        88u8, // unpacked length prefix
        0x01, 1, // root word: discriminant 1
        0x00, // account/user word, all zero
        0x01, 40, // username length byte 40
        0x00, 0x00, 0x00, 0x00, 0x00, 0x00, 0x00, 0x00, // remaining zero words
    ];
    assert_eq!(
        decode_message(&input, &all_table()),
        Err(DataDecodeError::StringTooLong(40, 32))
    );
}

#[test]
fn encode_faults_beyond_estimate() {
    // An icon message serializes to 40 unpacked bytes: a 32-byte estimate
    // is too small and must fault instead of silently growing, while a
    // 40-byte estimate fits exactly.
    let m = Message::IconData(sample_icons());
    match encode_message(32, &m) {
        Err(EncodeMessageError::ConstructionFailed(_)) => {}
        other => panic!("expected a construction fault, got {:?}", other),
    }
    assert!(encode_message(40, &m).is_ok());
}

#[test]
fn invalid_username_utf8_reported_before_length() {
    // A hand-built display-data frame whose username claims 36 bytes
    // (past the 32-byte capacity but inside the record's area) and holds
    // an invalid UTF-8 byte: the encoding error wins over the length.
    let input = vec![
        88u8, // unpacked length prefix
        0x01, 1, // root word: discriminant 1
        0x00, // account/user word, all zero
        0x03, 36, 0xFF, // username length byte 36, then an invalid byte
        0x00, 0x00, 0x00, 0x00, 0x00, 0x00, 0x00, 0x00, // remaining zero words
    ];
    assert_eq!(
        decode_message(&input, &all_table()),
        Err(DataDecodeError::InvalidUtf8)
    );
    // The same length byte over valid (zero) bytes is merely too long.
    let input = vec![
        88u8,
        0x01, 1,
        0x00,
        0x01, 36,
        0x00, 0x00, 0x00, 0x00, 0x00, 0x00, 0x00, 0x00,
    ];
    assert_eq!(
        decode_message(&input, &all_table()),
        Err(DataDecodeError::StringTooLong(36, 32))
    );
}

#[test]
fn encode_error_messages() {
    let e = EncodeMessageError::MessageTooLong;
    assert_eq!(e.message(), "message too long, could not encode");
    let e = EncodeMessageError::ConstructionFailed(BuildFault::Aborted(String::from("boom")));
    assert_eq!(e.message(), "error: boom");
    let e = EncodeMessageError::ConstructionFailed(BuildFault::OutOfSpace);
    assert_eq!(e.message(), "error: message does not fit the granted segment");
}

#[test]
fn display_username_capacity_checked() {
    // A username longer than 32 bytes cannot appear in a well-formed
    // message; a hand-corrupted frame with a too-long length byte is
    // rejected.
    let m = Message::DisplayData(PlayerDisplayData {
        account_id: 1,
        user_id: 2,
        username: String::from("bob"),
        icons: PlayerIconData::default(),
    });
    let frame = encode_message_dyn(&m);
    let (decoded, _) = decode_message(&frame, &all_table()).unwrap();
    assert_eq!(decoded, m);
}
