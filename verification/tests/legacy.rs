//! The legacy projections: the two-port R08 input dump and the Game Boy
//! input script.

use tasd::legacy::Gbi;
use tasd::legacy::LegacyError;
use tasd::legacy::R08;
use tasd::packets::Console;
use tasd::packets::ConsoleType;
use tasd::packets::InputChunk;
use tasd::packets::InputMoment;
use tasd::packets::MomentIndexKind;
use tasd::packets::Packet;
use tasd::packets::PortController;
use tasd::packets::PortKind;
use tasd::TasdFile;

#[test]
fn r08() {
    const TEST_LEN: usize = 1234;
    let mut r08_init = R08 {
        inputs: vec![[0x00, 0x00]; TEST_LEN],
    };
    r08_init.inputs[42][0] = 0xA5;
    r08_init.inputs[999][1] = 0x5A;

    let tasd: TasdFile = TasdFile::from(r08_init.clone());

    let ports: Vec<PortController> = tasd
        .packets
        .iter()
        .filter_map(|p| match p {
            Packet::PortController(port) => Some(port),
            _ => None,
        })
        .cloned()
        .collect();

    assert_eq!(ports.len(), 2);
    let p1 = ports.iter().find(|p| p.port == 1).expect("port1 should exist");
    let p2 = ports.iter().find(|p| p.port == 2).expect("port2 should exist");
    assert_eq!(p1.kind, PortKind::NesStandardController);
    assert_eq!(p2.kind, PortKind::NesStandardController);

    let chunks: Vec<InputChunk> = tasd
        .packets
        .iter()
        .filter_map(|p| match p {
            Packet::InputChunk(chunk) => Some(chunk),
            _ => None,
        })
        .cloned()
        .collect();

    let mut p1 = vec![];
    let mut p2 = vec![];
    for chunk in chunks {
        match chunk.port {
            1 => p1.extend_from_slice(&chunk.inputs),
            2 => p2.extend_from_slice(&chunk.inputs),
            _ => panic!("found unexpected port"),
        }
    }
    assert_eq!(p1.len(), TEST_LEN);
    assert_eq!(p2.len(), TEST_LEN);

    assert_eq!(p1[41], 0xFF);
    assert_eq!(p1[42], 0x5A);
    assert_eq!(p1[43], 0xFF);

    assert_eq!(p1[999], 0xFF);
    assert_eq!(p2[42], 0xFF);

    assert_eq!(p2[998], 0xFF);
    assert_eq!(p2[999], 0xA5);
    assert_eq!(p2[1000], 0xFF);

    assert_eq!(p1[0], 0xFF);
    assert_eq!(p2[0], 0xFF);

    let r08_convert: R08 = R08::try_from(tasd).expect("tasd should be valid");
    assert_eq!(r08_init, r08_convert);
}

#[test]
fn length_asymmetric_ports() {
    let mut tasd = TasdFile::default();
    tasd.packets.push(Packet::PortController(PortController {
        port: 1,
        kind: PortKind::NesStandardController,
    }));
    tasd.packets.push(Packet::PortController(PortController {
        port: 2,
        kind: PortKind::NesStandardController,
    }));
    tasd.packets.push(Packet::InputChunk(InputChunk {
        port: 1,
        inputs: vec![0x00; 100],
    }));
    tasd.packets.push(Packet::InputChunk(InputChunk {
        port: 2,
        inputs: vec![0x00; 200],
    }));

    let r08 = R08::try_from(tasd).unwrap();
    assert_eq!(r08.inputs.len(), 200);
    // Within port 1's lane the zero bytes invert to 0xFF; past its end the
    // 0xFF padding inverts back to 0x00.
    assert_eq!(r08.inputs[99][0], 0xFF);
    assert_eq!(r08.inputs[100][0], 0x00);
    assert_eq!(r08.inputs[199][0], 0x00);
    assert_eq!(r08.inputs[199][1], 0xFF);
}

#[test]
fn r08_requires_port_controllers() {
    let tasd = TasdFile::default();
    assert_eq!(
        R08::try_from(tasd),
        Err(LegacyError::MissingPortControllers)
    );
}

#[test]
fn r08_rejects_other_controllers() {
    let mut tasd = TasdFile::default();
    tasd.packets.push(Packet::PortController(PortController {
        port: 1,
        kind: PortKind::SnesMouse,
    }));
    assert_eq!(
        R08::try_from(tasd),
        Err(LegacyError::UnsupportedControllers)
    );
}

#[test]
fn gbi_nes_absent_safeguard() {
    let mut tasd = TasdFile::default();
    tasd.packets.push(Packet::ConsoleType(ConsoleType {
        console: Console::Nes,
        name: String::new(),
    }));
    assert_eq!(Gbi::try_from(tasd), Err(LegacyError::UnsupportedConsole));
}

#[test]
fn gbi_requires_a_console() {
    let tasd = TasdFile::default();
    assert_eq!(Gbi::try_from(tasd), Err(LegacyError::UnsupportedConsole));
}

#[test]
fn gbi_game_boy_lines_are_sorted_and_inverted() {
    let mut tasd = TasdFile::default();
    tasd.packets.push(Packet::ConsoleType(ConsoleType {
        console: Console::Gb,
        name: String::new(),
    }));
    tasd.packets.push(Packet::InputMoment(InputMoment {
        port: 1,
        hold: false,
        index_type: MomentIndexKind::Frame,
        index: 2,
        inputs: vec![0xFE],
    }));
    tasd.packets.push(Packet::InputMoment(InputMoment {
        port: 1,
        hold: false,
        index_type: MomentIndexKind::Frame,
        index: 1,
        inputs: vec![0xFF],
    }));

    let gbi = Gbi::try_from(tasd).unwrap();
    assert_eq!(gbi.console_type, 0x05);
    assert_eq!(gbi.input_text, "00000001 0000\n00000002 0001\n");
}

#[test]
fn gbi_game_boy_advance_uses_word_inputs() {
    let mut tasd = TasdFile::default();
    tasd.packets.push(Packet::ConsoleType(ConsoleType {
        console: Console::Gba,
        name: String::new(),
    }));
    tasd.packets.push(Packet::InputMoment(InputMoment {
        port: 1,
        hold: false,
        index_type: MomentIndexKind::Frame,
        index: 0x0A,
        inputs: vec![0x12, 0x34, 0x56],
    }));

    let gbi = Gbi::try_from(tasd).unwrap();
    assert_eq!(gbi.console_type, 0x07);
    // one full big-endian pair, inverted; the trailing odd byte is dropped
    assert_eq!(gbi.input_text, "0000000A EDCB\n");
}
