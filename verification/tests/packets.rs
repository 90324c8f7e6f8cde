//! Packet-level encode/decode behavior: single variants, the dispatcher,
//! unknown keys, and each decode error.

use tasd::packets::decode::DecodeError;
use tasd::packets::Console;
use tasd::packets::ConsoleRegion;
use tasd::packets::ConsoleType;
use tasd::packets::GameTitle;
use tasd::packets::InitDevice;
use tasd::packets::InitKind;
use tasd::packets::MemoryInit;
use tasd::packets::Packet;
use tasd::packets::SnesLatchTrain;
use tasd::packets::Transition;
use tasd::packets::TransitionIndexKind;
use tasd::packets::TransitionKind;
use tasd::packets::Unspecified;
use tasd::packets::Unsupported;
use tasd::packets::Verified;

#[test]
fn console_type() {
    let p = ConsoleType {
        console: Console::Custom,
        name: "0123456789".into(),
    };

    let buf = p.encode();
    assert_eq!(buf.len(), 15);

    println!("{buf:02X?}");

    let (de_p, end) = ConsoleType::decode(&buf, 0).unwrap();
    assert_eq!(p, de_p);
    assert_eq!(end, 15);
    println!("{de_p:#?}");
}

#[test]
fn console_type_exact_bytes() {
    let p = ConsoleType {
        console: Console::Custom,
        name: "0123456789".into(),
    };
    let buf = p.encode();
    assert_eq!(
        buf,
        vec![
            0x00, 0x01, 0x01, 0x0B, 0xFF, 0x30, 0x31, 0x32, 0x33, 0x34, 0x35, 0x36, 0x37, 0x38,
            0x39
        ]
    );
}

#[test]
fn wrapper() {
    let p: Packet = Packet::ConsoleType(ConsoleType {
        console: Console::Custom,
        name: "0123456789".into(),
    });

    let buf = p.encode();
    assert_eq!(buf.len(), 15);

    println!("{buf:02X?}");

    let (de_p, _) = Packet::decode(&buf, 0).unwrap();
    assert_eq!(p, de_p);
    println!("{de_p:#?}");
}

#[test]
fn unsupported() {
    let p: Packet = Packet::Unsupported(Unsupported {
        key: vec![0xA5, 0x5A],
        data: b"0123456789".to_vec(),
    });

    let buf = p.encode();
    assert_eq!(buf.len(), 14);

    println!("{buf:02X?}");

    let (de_p, _) = Packet::decode(&buf, 0).unwrap();
    assert_eq!(p, de_p);
    println!("{de_p:02X?}");
}

#[test]
fn unsupported_round_trip_stream() {
    let stream = vec![
        0xA5, 0x5A, 0x01, 0x0A, 0x30, 0x31, 0x32, 0x33, 0x34, 0x35, 0x36, 0x37, 0x38, 0x39,
    ];
    let (p, end) = Packet::decode(&stream, 0).unwrap();
    assert_eq!(end, 14);
    match &p {
        Packet::Unsupported(u) => {
            assert_eq!(u.key, vec![0xA5, 0x5A]);
            assert_eq!(u.data, b"0123456789".to_vec());
        }
        other => panic!("expected an unsupported packet, got {other:?}"),
    }
    assert_eq!(p.encode(), stream);
}

#[test]
fn empty_payload_uses_safe_zero_prefix() {
    let p = GameTitle { title: String::new() };
    let buf = p.encode();
    assert_eq!(buf, vec![0x00, 0x03, 0x01, 0x00]);
    let (de_p, end) = GameTitle::decode(&buf, 0).unwrap();
    assert_eq!(de_p, p);
    assert_eq!(end, 4);
}

#[test]
fn plen_widens_past_255() {
    let p = Unspecified { data: vec![0x11; 256] };
    let buf = p.encode();
    assert_eq!(buf.len(), 2 + 3 + 256);
    assert_eq!(&buf[0..5], &[0xFF, 0xFF, 0x02, 0x01, 0x00]);
    let (de_p, _) = Unspecified::decode(&buf, 0).unwrap();
    assert_eq!(de_p, p);
}

#[test]
fn memory_init_round_trip() {
    let p = MemoryInit {
        data_type: InitKind::Custom,
        device: InitDevice::GbCpuRam,
        required: true,
        name: "pattern".into(),
        data: vec![0x00, 0x00, 0x00, 0x00, 0xFF, 0xFF, 0xFF, 0xFF],
    };
    let buf = p.encode();
    let (de_p, end) = MemoryInit::decode(&buf, 0).unwrap();
    assert_eq!(de_p, p);
    assert_eq!(end, buf.len());
}

#[test]
fn latch_train_round_trip() {
    let p = SnesLatchTrain {
        latch_trains: vec![1, 0x1_0000_0000, u64::MAX],
    };
    let buf = p.encode();
    let (de_p, end) = SnesLatchTrain::decode(&buf, 0).unwrap();
    assert_eq!(de_p, p);
    assert_eq!(end, buf.len());
}

#[test]
fn nested_transition_round_trip() {
    let inner = Packet::ConsoleType(ConsoleType {
        console: Console::Gb,
        name: String::new(),
    });
    let p = Packet::Transition(Transition {
        port: 1,
        index_type: TransitionIndexKind::Frame,
        index: 0x123456789ABCDEF0,
        transition_type: TransitionKind::SoftReset,
        inner_packet: Some(Box::new(inner)),
    });
    let buf = p.encode();
    let (de_p, end) = Packet::decode(&buf, 0).unwrap();
    assert_eq!(de_p, p);
    assert_eq!(end, buf.len());
}

#[test]
fn deep_nesting_is_bounded() {
    let mut p = Packet::ConsoleType(ConsoleType {
        console: Console::Gb,
        name: String::new(),
    });
    for _ in 0..40 {
        p = Packet::Transition(Transition {
            port: 1,
            index_type: TransitionIndexKind::Frame,
            index: 7,
            transition_type: TransitionKind::SoftReset,
            inner_packet: Some(Box::new(p)),
        });
    }
    let buf = p.encode();
    // Decoding must neither overflow the stack nor fail: past the nesting
    // bound the remainder is preserved as an unsupported packet instead.
    let (de_p, end) = Packet::decode(&buf, 0).unwrap();
    assert_eq!(end, buf.len());
    assert_ne!(de_p, p);
    assert_eq!(de_p.encode(), buf);
}

#[test]
fn bool_byte_is_validated() {
    // key 00 11, one payload byte that is neither 0 nor 1
    let stream = vec![0x00, 0x11, 0x01, 0x01, 0x02];
    assert_eq!(Verified::decode(&stream, 0), Err(DecodeError::InvalidBool));
    // The dispatcher falls through to the unsupported form instead.
    let (p, _) = Packet::decode(&stream, 0).unwrap();
    match p {
        Packet::Unsupported(u) => {
            assert_eq!(u.key, vec![0x00, 0x11]);
            assert_eq!(u.data, vec![0x02]);
        }
        other => panic!("expected an unsupported packet, got {other:?}"),
    }
}

#[test]
fn unknown_enum_value_is_rejected() {
    // key 00 02, one payload byte that no region uses
    let stream = vec![0x00, 0x02, 0x01, 0x01, 0x03];
    assert_eq!(
        ConsoleRegion::decode(&stream, 0),
        Err(DecodeError::InvalidEnum)
    );
}

#[test]
fn wrong_key_is_rejected() {
    let buf = GameTitle { title: "x".into() }.encode();
    assert_eq!(ConsoleType::decode(&buf, 0), Err(DecodeError::WrongKey));
}

#[test]
fn zero_exponent_is_rejected() {
    let stream = vec![0x00, 0x03, 0x00];
    assert_eq!(GameTitle::decode(&stream, 0), Err(DecodeError::ExponentIsZero));
    assert_eq!(Packet::decode(&stream, 0), Err(DecodeError::ExponentIsZero));
}

#[test]
fn truncated_input_is_end_of_stream() {
    let empty: Vec<u8> = vec![];
    assert_eq!(Packet::decode(&empty, 0), Err(DecodeError::EndOfStream));
    let partial = vec![0x00, 0x03, 0x01, 0x05, 0x61];
    assert_eq!(Packet::decode(&partial, 0), Err(DecodeError::EndOfStream));
}

#[test]
fn invalid_utf8_is_rejected() {
    let stream = vec![0x00, 0x03, 0x01, 0x01, 0xFF];
    assert_eq!(GameTitle::decode(&stream, 0), Err(DecodeError::InvalidUtf8));
    // The dispatcher still accepts the bytes as an unsupported packet.
    let (p, _) = Packet::decode(&stream, 0).unwrap();
    assert!(matches!(p, Packet::Unsupported(_)));
}

#[test]
fn oversized_length_is_rejected() {
    let mut stream = vec![0xFF, 0xFF, 0x09, 0x01];
    stream.extend_from_slice(&[0x00; 8]);
    assert_eq!(
        Unspecified::decode(&stream, 0),
        Err(DecodeError::OversizedLength)
    );
}

#[test]
fn word_tail_must_be_multiple_of_eight() {
    let stream = vec![0x02, 0x05, 0x01, 0x04, 0x01, 0x02, 0x03, 0x04];
    assert_eq!(
        SnesLatchTrain::decode(&stream, 0),
        Err(DecodeError::WrongLength)
    );
}

#[test]
fn u8_string_truncates_on_char_boundary() {
    let long_ascii = "a".repeat(300);
    let t = tasd::strings::u8_string_bytes(&long_ascii);
    assert_eq!(t.len(), 256);
    assert_eq!(t[0], 255);

    // 254 one-byte characters then one two-byte character: the cut may not
    // split the final code point, so only 254 bytes are kept.
    let mut tricky = "a".repeat(254);
    tricky.push('\u{e9}');
    assert_eq!(tricky.len(), 256);
    let t = tasd::strings::u8_string_bytes(&tricky);
    assert_eq!(t.len(), 255);
    assert_eq!(t[0], 254);

    let short = "short";
    let t = tasd::strings::u8_string_bytes(short);
    assert_eq!(t, vec![5, b's', b'h', b'o', b'r', b't']);
}
