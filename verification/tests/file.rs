//! File-level behavior: the envelope, whole-file round trips, and the
//! header errors.

use std::time::Instant;
use tasd::packets::decode::DecodeError;
use tasd::packets::Console;
use tasd::packets::ConsoleType;
use tasd::packets::GameTitle;
use tasd::packets::Packet;
use tasd::packets::Transition;
use tasd::packets::TransitionIndexKind;
use tasd::packets::TransitionKind;
use tasd::packets::Unsupported;
use tasd::TasdError;
use tasd::TasdFile;

#[test]
fn huge() {
    let mut tasd = TasdFile::new();

    tasd.packets.resize(
        1000000,
        Packet::Transition(Transition {
            port: 0x01,
            index_type: TransitionIndexKind::Frame,
            index: 0x123456789ABCDEF0,
            transition_type: TransitionKind::PacketDerived,
            inner_packet: Some(Box::new(Packet::ConsoleType(ConsoleType {
                console: Console::Custom,
                name: "Gamesphere".into(),
            }))),
        }),
    );

    let start = Instant::now();
    let data = tasd.encode();
    let encoded = start.elapsed();
    let start = Instant::now();
    let new_tasd = TasdFile::parse_slice(&data).unwrap();
    let decoded = start.elapsed();

    println!("{:.3}s, {:.3}s", encoded.as_secs_f32(), decoded.as_secs_f32());

    assert_eq!(tasd, new_tasd);
}

#[test]
fn empty_file() {
    let tasd = TasdFile::new();
    let data = tasd.encode();
    // magic, version, keylen, then a single creation-stamp packet whose
    // payload is one length-prefixed eight-byte timestamp
    assert_eq!(data.len(), 19);
    assert_eq!(&data[0..7], &[0x54, 0x41, 0x53, 0x44, 0x00, 0x01, 0x02]);
    assert_eq!(&data[7..11], &[0x00, 0x0B, 0x01, 0x08]);
}

#[test]
fn file_round_trip() {
    let mut tasd = TasdFile::default();
    tasd.packets.push(Packet::GameTitle(GameTitle {
        title: "A Short Quest".into(),
    }));
    tasd.packets.push(Packet::Unsupported(Unsupported {
        key: vec![0xAB, 0xCD],
        data: vec![1, 2, 3],
    }));
    let data = tasd.encode();
    let parsed = TasdFile::parse_slice(&data).unwrap();
    assert_eq!(parsed, tasd);
    assert_eq!(parsed.encode(), data);
}

#[test]
fn injected_unknown_packet_survives() {
    let mut tasd = TasdFile::default();
    tasd.packets.push(Packet::GameTitle(GameTitle {
        title: "before".into(),
    }));
    tasd.packets.push(Packet::GameTitle(GameTitle {
        title: "after".into(),
    }));
    let mut with_injection = tasd.clone();
    with_injection.packets.insert(
        1,
        Packet::Unsupported(Unsupported {
            key: vec![0x77, 0x77],
            data: vec![0xDE, 0xAD],
        }),
    );
    let data = with_injection.encode();
    let parsed = TasdFile::parse_slice(&data).unwrap();
    assert_eq!(parsed, with_injection);
    assert_eq!(parsed.encode(), data);
}

#[test]
fn short_header_is_missing_header() {
    let data = vec![0x54, 0x41, 0x53];
    assert_eq!(
        TasdFile::parse_slice(&data),
        Err(TasdError::MissingHeader)
    );
    let data = vec![0x54, 0x41, 0x53, 0x44, 0x00];
    assert_eq!(
        TasdFile::parse_slice(&data),
        Err(TasdError::MissingHeader)
    );
    let data = vec![0x54, 0x41, 0x53, 0x44, 0x00, 0x01];
    assert_eq!(
        TasdFile::parse_slice(&data),
        Err(TasdError::MissingHeader)
    );
}

#[test]
fn bad_magic_is_reported_with_bytes() {
    let data = vec![0x54, 0x41, 0x53, 0x45, 0x00, 0x01, 0x02];
    assert_eq!(
        TasdFile::parse_slice(&data),
        Err(TasdError::MagicNumberMismatch([0x54, 0x41, 0x53, 0x45]))
    );
}

#[test]
fn unknown_version_is_rejected() {
    let data = vec![0x54, 0x41, 0x53, 0x44, 0x00, 0x02, 0x02];
    assert_eq!(
        TasdFile::parse_slice(&data),
        Err(TasdError::UnsupportedVersion)
    );
}

#[test]
fn trailing_partial_packet_is_an_error() {
    let mut data = TasdFile::default().encode();
    data.push(0x00);
    assert_eq!(
        TasdFile::parse_slice(&data),
        Err(TasdError::Packet(DecodeError::EndOfStream))
    );
}
