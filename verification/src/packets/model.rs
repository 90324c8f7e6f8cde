//! The mathematical model of the packet catalog: a ghost mirror of the
//! packet union over `Seq` values, the exact wire bytes of each packet, and
//! the well-formedness predicates that the round-trip laws quantify over.

use vstd::prelude::*;
use vstd::utf8::encode_utf8;
use crate::wire::be16;
use crate::wire::be32;
use crate::wire::be64;
use crate::wire::bei16;
use crate::wire::bei64;
use crate::wire::bool_byte;
use crate::wire::framed;
use crate::packets::Attribution;
use crate::packets::AttributionKind;
use crate::packets::BlankFrames;
use crate::packets::Category;
use crate::packets::Comment;
use crate::packets::Console;
use crate::packets::ConsoleRegion;
use crate::packets::ConsoleType;
use crate::packets::DumpCreated;
use crate::packets::DumpLastModified;
use crate::packets::EmulatorCore;
use crate::packets::EmulatorName;
use crate::packets::EmulatorVersion;
use crate::packets::Experimental;
use crate::packets::GameIdentifier;
use crate::packets::GameTitle;
use crate::packets::GenesisGameGenieCode;
use crate::packets::IdEncoding;
use crate::packets::IdKind;
use crate::packets::InitDevice;
use crate::packets::InitKind;
use crate::packets::InputChunk;
use crate::packets::InputMoment;
use crate::packets::LagFrameChunk;
use crate::packets::MemoryInit;
use crate::packets::MomentIndexKind;
use crate::packets::MovieFile;
use crate::packets::MovieLicense;
use crate::packets::MovieTransition;
use crate::packets::NesClockFilter;
use crate::packets::NesGameGenieCode;
use crate::packets::NesLatchFilter;
use crate::packets::Packet;
use crate::packets::PortController;
use crate::packets::PortKind;
use crate::packets::PortOverread;
use crate::packets::Rerecords;
use crate::packets::RomName;
use crate::packets::SnesClockFilter;
use crate::packets::SnesGameGenieCode;
use crate::packets::SnesLatchFilter;
use crate::packets::SnesLatchTrain;
use crate::packets::SourceLink;
use crate::packets::TasLastModified;
use crate::packets::TotalFrames;
use crate::packets::Transition;
use crate::packets::TransitionIndexKind;
use crate::packets::TransitionKind;
use crate::packets::Unspecified;
use crate::packets::Unsupported;
use crate::packets::Verified;
use crate::packets::attribution_kind_value;
use crate::packets::console_value;
use crate::packets::console_region_value;
use crate::packets::id_encoding_value;
use crate::packets::id_kind_value;
use crate::packets::init_device_value;
use crate::packets::init_kind_value;
use crate::packets::moment_index_kind_value;
use crate::packets::port_kind_value;
use crate::packets::transition_index_kind_value;
use crate::packets::transition_kind_value;

verus! {

/// The deepest packet nesting the decoder will follow. Transitions may carry
/// a nested packet; bounding the recursion keeps adversarial inputs from
/// exhausting the stack.
pub const MAX_PACKET_DEPTH: usize = 32;

/// A packet value with every vector and string abstracted to its sequence:
/// the form the contracts and laws speak of.
pub enum PacketV {
    ConsoleType { console: Console, name: Seq<char> },
    ConsoleRegion { region: ConsoleRegion },
    GameTitle { title: Seq<char> },
    RomName { name: Seq<char> },
    Attribution { kind: AttributionKind, name: Seq<char> },
    Category { category: Seq<char> },
    EmulatorName { name: Seq<char> },
    EmulatorVersion { version: Seq<char> },
    EmulatorCore { core: Seq<char> },
    TasLastModified { timestamp: i64 },
    DumpCreated { timestamp: i64 },
    DumpLastModified { timestamp: i64 },
    TotalFrames { frames: u32 },
    Rerecords { rerecords: u32 },
    SourceLink { link: Seq<char> },
    BlankFrames { frames: i16 },
    Verified { verified: bool },
    MemoryInit { data_type: InitKind, device: InitDevice, required: bool, name: Seq<char>, data: Seq<u8> },
    GameIdentifier { kind: IdKind, encoding: IdEncoding, name: Seq<char>, identifier: Seq<u8> },
    MovieLicense { license: Seq<char> },
    MovieFile { name: Seq<char>, data: Seq<u8> },
    PortController { port: u8, kind: PortKind },
    PortOverread { port: u8, high: bool },
    NesLatchFilter { time: u16 },
    NesClockFilter { time: u8 },
    NesGameGenieCode { code: Seq<char> },
    SnesLatchFilter { time: u16 },
    SnesClockFilter { time: u8 },
    SnesGameGenieCode { code: Seq<char> },
    SnesLatchTrain { latch_trains: Seq<u64> },
    GenesisGameGenieCode { code: Seq<char> },
    InputChunk { port: u8, inputs: Seq<u8> },
    InputMoment { port: u8, hold: bool, index_type: MomentIndexKind, index: u64, inputs: Seq<u8> },
    Transition { port: u8, index_type: TransitionIndexKind, index: u64, transition_type: TransitionKind, inner_packet: Option<Box<PacketV>> },
    LagFrameChunk { movie_frame: u32, count: u32 },
    MovieTransition { movie_frame: u32, transition_type: TransitionKind, inner_packet: Option<Box<PacketV>> },
    Comment { comment: Seq<char> },
    Experimental { experimental: bool },
    Unspecified { data: Seq<u8> },
    Unsupported { key: Seq<u8>, data: Seq<u8> },
}

/// The model of a packet value.
pub open spec fn pv(p: Packet) -> PacketV
    decreases p,
{
    match p {
        Packet::ConsoleType(x) => PacketV::ConsoleType { console: x.console, name: x.name@ },
        Packet::ConsoleRegion(x) => PacketV::ConsoleRegion { region: x },
        Packet::GameTitle(x) => PacketV::GameTitle { title: x.title@ },
        Packet::RomName(x) => PacketV::RomName { name: x.name@ },
        Packet::Attribution(x) => PacketV::Attribution { kind: x.kind, name: x.name@ },
        Packet::Category(x) => PacketV::Category { category: x.category@ },
        Packet::EmulatorName(x) => PacketV::EmulatorName { name: x.name@ },
        Packet::EmulatorVersion(x) => PacketV::EmulatorVersion { version: x.version@ },
        Packet::EmulatorCore(x) => PacketV::EmulatorCore { core: x.core@ },
        Packet::TasLastModified(x) => PacketV::TasLastModified { timestamp: x.timestamp },
        Packet::DumpCreated(x) => PacketV::DumpCreated { timestamp: x.timestamp },
        Packet::DumpLastModified(x) => PacketV::DumpLastModified { timestamp: x.timestamp },
        Packet::TotalFrames(x) => PacketV::TotalFrames { frames: x.frames },
        Packet::Rerecords(x) => PacketV::Rerecords { rerecords: x.rerecords },
        Packet::SourceLink(x) => PacketV::SourceLink { link: x.link@ },
        Packet::BlankFrames(x) => PacketV::BlankFrames { frames: x.frames },
        Packet::Verified(x) => PacketV::Verified { verified: x.verified },
        Packet::MemoryInit(x) => PacketV::MemoryInit { data_type: x.data_type, device: x.device, required: x.required, name: x.name@, data: x.data@ },
        Packet::GameIdentifier(x) => PacketV::GameIdentifier { kind: x.kind, encoding: x.encoding, name: x.name@, identifier: x.identifier@ },
        Packet::MovieLicense(x) => PacketV::MovieLicense { license: x.license@ },
        Packet::MovieFile(x) => PacketV::MovieFile { name: x.name@, data: x.data@ },
        Packet::PortController(x) => PacketV::PortController { port: x.port, kind: x.kind },
        Packet::PortOverread(x) => PacketV::PortOverread { port: x.port, high: x.high },
        Packet::NesLatchFilter(x) => PacketV::NesLatchFilter { time: x.time },
        Packet::NesClockFilter(x) => PacketV::NesClockFilter { time: x.time },
        Packet::NesGameGenieCode(x) => PacketV::NesGameGenieCode { code: x.code@ },
        Packet::SnesLatchFilter(x) => PacketV::SnesLatchFilter { time: x.time },
        Packet::SnesClockFilter(x) => PacketV::SnesClockFilter { time: x.time },
        Packet::SnesGameGenieCode(x) => PacketV::SnesGameGenieCode { code: x.code@ },
        Packet::SnesLatchTrain(x) => PacketV::SnesLatchTrain { latch_trains: x.latch_trains@ },
        Packet::GenesisGameGenieCode(x) => PacketV::GenesisGameGenieCode { code: x.code@ },
        Packet::InputChunk(x) => PacketV::InputChunk { port: x.port, inputs: x.inputs@ },
        Packet::InputMoment(x) => PacketV::InputMoment { port: x.port, hold: x.hold, index_type: x.index_type, index: x.index, inputs: x.inputs@ },
        Packet::Transition(x) => PacketV::Transition { port: x.port, index_type: x.index_type, index: x.index, transition_type: x.transition_type, inner_packet: (match x.inner_packet { Option::Some(b) => Option::Some(Box::new(pv(*b))), Option::None => Option::None }) },
        Packet::LagFrameChunk(x) => PacketV::LagFrameChunk { movie_frame: x.movie_frame, count: x.count },
        Packet::MovieTransition(x) => PacketV::MovieTransition { movie_frame: x.movie_frame, transition_type: x.transition_type, inner_packet: (match x.inner_packet { Option::Some(b) => Option::Some(Box::new(pv(*b))), Option::None => Option::None }) },
        Packet::Comment(x) => PacketV::Comment { comment: x.comment@ },
        Packet::Experimental(x) => PacketV::Experimental { experimental: x.experimental },
        Packet::Unspecified(x) => PacketV::Unspecified { data: x.data@ },
        Packet::Unsupported(x) => PacketV::Unsupported { key: x.key@, data: x.data@ },
    }
}

/// The two key bytes of each packet variant (the stored key, for an
/// unsupported packet).
pub open spec fn key_v(v: PacketV) -> Seq<u8> {
    match v {
        PacketV::ConsoleType { .. } => seq![0x0u8, 0x1u8],
        PacketV::ConsoleRegion { .. } => seq![0x0u8, 0x2u8],
        PacketV::GameTitle { .. } => seq![0x0u8, 0x3u8],
        PacketV::RomName { .. } => seq![0x0u8, 0x4u8],
        PacketV::Attribution { .. } => seq![0x0u8, 0x5u8],
        PacketV::Category { .. } => seq![0x0u8, 0x6u8],
        PacketV::EmulatorName { .. } => seq![0x0u8, 0x7u8],
        PacketV::EmulatorVersion { .. } => seq![0x0u8, 0x8u8],
        PacketV::EmulatorCore { .. } => seq![0x0u8, 0x9u8],
        PacketV::TasLastModified { .. } => seq![0x0u8, 0xau8],
        PacketV::DumpCreated { .. } => seq![0x0u8, 0xbu8],
        PacketV::DumpLastModified { .. } => seq![0x0u8, 0xcu8],
        PacketV::TotalFrames { .. } => seq![0x0u8, 0xdu8],
        PacketV::Rerecords { .. } => seq![0x0u8, 0xeu8],
        PacketV::SourceLink { .. } => seq![0x0u8, 0xfu8],
        PacketV::BlankFrames { .. } => seq![0x0u8, 0x10u8],
        PacketV::Verified { .. } => seq![0x0u8, 0x11u8],
        PacketV::MemoryInit { .. } => seq![0x0u8, 0x12u8],
        PacketV::GameIdentifier { .. } => seq![0x0u8, 0x13u8],
        PacketV::MovieLicense { .. } => seq![0x0u8, 0x14u8],
        PacketV::MovieFile { .. } => seq![0x0u8, 0x15u8],
        PacketV::PortController { .. } => seq![0x0u8, 0xf0u8],
        PacketV::PortOverread { .. } => seq![0x0u8, 0xf1u8],
        PacketV::NesLatchFilter { .. } => seq![0x1u8, 0x1u8],
        PacketV::NesClockFilter { .. } => seq![0x1u8, 0x2u8],
        PacketV::NesGameGenieCode { .. } => seq![0x1u8, 0x4u8],
        PacketV::SnesLatchFilter { .. } => seq![0x2u8, 0x1u8],
        PacketV::SnesClockFilter { .. } => seq![0x2u8, 0x2u8],
        PacketV::SnesGameGenieCode { .. } => seq![0x2u8, 0x4u8],
        PacketV::SnesLatchTrain { .. } => seq![0x2u8, 0x5u8],
        PacketV::GenesisGameGenieCode { .. } => seq![0x8u8, 0x4u8],
        PacketV::InputChunk { .. } => seq![0xfeu8, 0x1u8],
        PacketV::InputMoment { .. } => seq![0xfeu8, 0x2u8],
        PacketV::Transition { .. } => seq![0xfeu8, 0x3u8],
        PacketV::LagFrameChunk { .. } => seq![0xfeu8, 0x4u8],
        PacketV::MovieTransition { .. } => seq![0xfeu8, 0x5u8],
        PacketV::Comment { .. } => seq![0xffu8, 0x1u8],
        PacketV::Experimental { .. } => seq![0xffu8, 0xfeu8],
        PacketV::Unspecified { .. } => seq![0xffu8, 0xffu8],
        PacketV::Unsupported { key, .. } => key,
    }
}

/// A one-byte length then the UTF-8 bytes: the `u8_string` field encoding.
/// Exact only for strings of at most 255 bytes; longer ones are truncated by
/// the encoder (see [`crate::strings::u8_string_bytes`]).
pub open spec fn u8str_seq(name: Seq<char>) -> Seq<u8> {
    seq![encode_utf8(name).len() as u8] + encode_utf8(name)
}

/// Each 64-bit word as eight big-endian bytes, in order.
pub open spec fn words_bytes(ws: Seq<u64>) -> Seq<u8>
    decreases ws.len(),
{
    if ws.len() == 0 {
        Seq::<u8>::empty()
    } else {
        be64(ws[0]) + words_bytes(ws.drop_first())
    }
}

/// The payload bytes of a packet: its fields encoded in order.
pub open spec fn payload_v(v: PacketV) -> Seq<u8>
    decreases v, 0int,
{
    match v {
        PacketV::ConsoleType { console, name } => seq![console_value(console)] + encode_utf8(name),
        PacketV::ConsoleRegion { region } => seq![console_region_value(region)],
        PacketV::GameTitle { title } => encode_utf8(title),
        PacketV::RomName { name } => encode_utf8(name),
        PacketV::Attribution { kind, name } => seq![attribution_kind_value(kind)] + encode_utf8(name),
        PacketV::Category { category } => encode_utf8(category),
        PacketV::EmulatorName { name } => encode_utf8(name),
        PacketV::EmulatorVersion { version } => encode_utf8(version),
        PacketV::EmulatorCore { core } => encode_utf8(core),
        PacketV::TasLastModified { timestamp } => bei64(timestamp),
        PacketV::DumpCreated { timestamp } => bei64(timestamp),
        PacketV::DumpLastModified { timestamp } => bei64(timestamp),
        PacketV::TotalFrames { frames } => be32(frames),
        PacketV::Rerecords { rerecords } => be32(rerecords),
        PacketV::SourceLink { link } => encode_utf8(link),
        PacketV::BlankFrames { frames } => bei16(frames),
        PacketV::Verified { verified } => seq![bool_byte(verified)],
        PacketV::MemoryInit { data_type, device, required, name, data } => seq![init_kind_value(data_type)] + be16(init_device_value(device)) + seq![bool_byte(required)] + u8str_seq(name) + data,
        PacketV::GameIdentifier { kind, encoding, name, identifier } => seq![id_kind_value(kind)] + seq![id_encoding_value(encoding)] + u8str_seq(name) + identifier,
        PacketV::MovieLicense { license } => encode_utf8(license),
        PacketV::MovieFile { name, data } => u8str_seq(name) + data,
        PacketV::PortController { port, kind } => seq![port] + be16(port_kind_value(kind)),
        PacketV::PortOverread { port, high } => seq![port] + seq![bool_byte(high)],
        PacketV::NesLatchFilter { time } => be16(time),
        PacketV::NesClockFilter { time } => seq![time],
        PacketV::NesGameGenieCode { code } => encode_utf8(code),
        PacketV::SnesLatchFilter { time } => be16(time),
        PacketV::SnesClockFilter { time } => seq![time],
        PacketV::SnesGameGenieCode { code } => encode_utf8(code),
        PacketV::SnesLatchTrain { latch_trains } => words_bytes(latch_trains),
        PacketV::GenesisGameGenieCode { code } => encode_utf8(code),
        PacketV::InputChunk { port, inputs } => seq![port] + inputs,
        PacketV::InputMoment { port, hold, index_type, index, inputs } => seq![port] + seq![bool_byte(hold)] + seq![moment_index_kind_value(index_type)] + be64(index) + inputs,
        PacketV::Transition { port, index_type, index, transition_type, inner_packet } => seq![port] + seq![transition_index_kind_value(index_type)] + be64(index) + seq![transition_kind_value(transition_type)] + (match inner_packet { Option::Some(b) => packet_bytes_v(*b), Option::None => Seq::<u8>::empty() }),
        PacketV::LagFrameChunk { movie_frame, count } => be32(movie_frame) + be32(count),
        PacketV::MovieTransition { movie_frame, transition_type, inner_packet } => be32(movie_frame) + seq![transition_kind_value(transition_type)] + (match inner_packet { Option::Some(b) => packet_bytes_v(*b), Option::None => Seq::<u8>::empty() }),
        PacketV::Comment { comment } => encode_utf8(comment),
        PacketV::Experimental { experimental } => seq![bool_byte(experimental)],
        PacketV::Unspecified { data } => data,
        PacketV::Unsupported { key: _, data } => data,
    }
}

/// The full wire form of a packet: key, minimal length prefix, payload.
pub open spec fn packet_bytes_v(v: PacketV) -> Seq<u8>
    decreases v, 1int,
{
    framed(key_v(v), payload_v(v))
}

/// True of the two-byte keys in the catalog of typed packets.
pub open spec fn known_key(k0: u8, k1: u8) -> bool {
    ||| (k0 == 0x0 && k1 == 0x1)
    ||| (k0 == 0x0 && k1 == 0x2)
    ||| (k0 == 0x0 && k1 == 0x3)
    ||| (k0 == 0x0 && k1 == 0x4)
    ||| (k0 == 0x0 && k1 == 0x5)
    ||| (k0 == 0x0 && k1 == 0x6)
    ||| (k0 == 0x0 && k1 == 0x7)
    ||| (k0 == 0x0 && k1 == 0x8)
    ||| (k0 == 0x0 && k1 == 0x9)
    ||| (k0 == 0x0 && k1 == 0xa)
    ||| (k0 == 0x0 && k1 == 0xb)
    ||| (k0 == 0x0 && k1 == 0xc)
    ||| (k0 == 0x0 && k1 == 0xd)
    ||| (k0 == 0x0 && k1 == 0xe)
    ||| (k0 == 0x0 && k1 == 0xf)
    ||| (k0 == 0x0 && k1 == 0x10)
    ||| (k0 == 0x0 && k1 == 0x11)
    ||| (k0 == 0x0 && k1 == 0x12)
    ||| (k0 == 0x0 && k1 == 0x13)
    ||| (k0 == 0x0 && k1 == 0x14)
    ||| (k0 == 0x0 && k1 == 0x15)
    ||| (k0 == 0x0 && k1 == 0xf0)
    ||| (k0 == 0x0 && k1 == 0xf1)
    ||| (k0 == 0x1 && k1 == 0x1)
    ||| (k0 == 0x1 && k1 == 0x2)
    ||| (k0 == 0x1 && k1 == 0x4)
    ||| (k0 == 0x2 && k1 == 0x1)
    ||| (k0 == 0x2 && k1 == 0x2)
    ||| (k0 == 0x2 && k1 == 0x4)
    ||| (k0 == 0x2 && k1 == 0x5)
    ||| (k0 == 0x8 && k1 == 0x4)
    ||| (k0 == 0xfe && k1 == 0x1)
    ||| (k0 == 0xfe && k1 == 0x2)
    ||| (k0 == 0xfe && k1 == 0x3)
    ||| (k0 == 0xfe && k1 == 0x4)
    ||| (k0 == 0xfe && k1 == 0x5)
    ||| (k0 == 0xff && k1 == 0x1)
    ||| (k0 == 0xff && k1 == 0xfe)
    ||| (k0 == 0xff && k1 == 0xff)
}

/// True when the encoder emits exactly the packet's model bytes: every
/// `u8_string` field fits its one-byte length without truncation.
pub open spec fn encodable(v: PacketV) -> bool
    decreases v,
{
    match v {
        PacketV::MemoryInit { name, .. } => encode_utf8(name).len() <= 255,
        PacketV::GameIdentifier { name, .. } => encode_utf8(name).len() <= 255,
        PacketV::MovieFile { name, .. } => encode_utf8(name).len() <= 255,
        PacketV::Transition { inner_packet, .. } => (match inner_packet {
            Option::Some(b) => encodable(*b),
            Option::None => true,
        }),
        PacketV::MovieTransition { inner_packet, .. } => (match inner_packet {
            Option::Some(b) => encodable(*b),
            Option::None => true,
        }),
        _ => true,
    }
}

/// How many packets are nested inside this one.
pub open spec fn depth_of(v: PacketV) -> nat
    decreases v,
{
    match v {
        PacketV::Transition { inner_packet, .. } => (match inner_packet {
            Option::Some(b) => 1 + depth_of(*b),
            Option::None => 0,
        }),
        PacketV::MovieTransition { inner_packet, .. } => (match inner_packet {
            Option::Some(b) => 1 + depth_of(*b),
            Option::None => 0,
        }),
        _ => 0,
    }
}

/// An unsupported packet, anywhere in the value, really carries an unknown
/// two-byte key: on such values decoding resolves to the same variant that
/// was encoded.
pub open spec fn wf_keys(v: PacketV) -> bool
    decreases v,
{
    match v {
        PacketV::Unsupported { key, .. } => key.len() == 2 && !known_key(key[0], key[1]),
        PacketV::Transition { inner_packet, .. } => (match inner_packet {
            Option::Some(b) => wf_keys(*b),
            Option::None => true,
        }),
        PacketV::MovieTransition { inner_packet, .. } => (match inner_packet {
            Option::Some(b) => wf_keys(*b),
            Option::None => true,
        }),
        _ => true,
    }
}

/// A valid packet value: the values the packet round-trip law ranges over.
pub open spec fn wf_packet(v: PacketV) -> bool {
    &&& encodable(v)
    &&& wf_keys(v)
    &&& depth_of(v) <= MAX_PACKET_DEPTH
    &&& packet_bytes_v(v).len() <= usize::MAX
}

pub proof fn lemma_words_bytes_push(ws: Seq<u64>, w: u64)
    ensures
        words_bytes(ws.push(w)) == words_bytes(ws) + be64(w),
    decreases ws.len(),
{
    if ws.len() == 0 {
        assert(ws.push(w)[0] == w);
        assert(ws.push(w).drop_first() =~= ws);
        assert(words_bytes(ws.push(w)) =~= words_bytes(ws) + be64(w));
    } else {
        assert(ws.push(w).drop_first() =~= ws.drop_first().push(w));
        lemma_words_bytes_push(ws.drop_first(), w);
        assert(ws.push(w)[0] == ws[0]);
        assert(words_bytes(ws.push(w)) =~= words_bytes(ws) + be64(w));
    }
}

/// Eight bytes per word, exactly.
pub proof fn lemma_words_bytes_len(ws: Seq<u64>)
    ensures
        words_bytes(ws).len() == 8 * ws.len(),
    decreases ws.len(),
{
    if ws.len() > 0 {
        lemma_words_bytes_len(ws.drop_first());
    }
}

} // verus!
