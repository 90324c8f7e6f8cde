//! The packet decoders. A specification-level decoder defines, byte for
//! byte, what each variant accepts and which error it reports; every
//! executable decoder is proved to return exactly what the specification
//! decoder says. Decoding works on a borrowed buffer and a cursor position,
//! so a failed decode never disturbs the input: the caller's position is
//! simply not advanced.

use vstd::prelude::*;
use vstd::utf8::decode_utf8;
use vstd::utf8::valid_utf8;
use crate::packets::Attribution;
use crate::packets::BlankFrames;
use crate::packets::Category;
use crate::packets::Comment;
use crate::packets::ConsoleType;
use crate::packets::DumpCreated;
use crate::packets::DumpLastModified;
use crate::packets::EmulatorCore;
use crate::packets::EmulatorName;
use crate::packets::EmulatorVersion;
use crate::packets::Experimental;
use crate::packets::GameIdentifier;
use crate::packets::GameTitle;
use crate::packets::GenesisGameGenieCode;
use crate::packets::InputChunk;
use crate::packets::InputMoment;
use crate::packets::LagFrameChunk;
use crate::packets::MemoryInit;
use crate::packets::MovieFile;
use crate::packets::MovieLicense;
use crate::packets::MovieTransition;
use crate::packets::NesClockFilter;
use crate::packets::NesGameGenieCode;
use crate::packets::NesLatchFilter;
use crate::packets::PortController;
use crate::packets::PortOverread;
use crate::packets::Rerecords;
use crate::packets::RomName;
use crate::packets::SnesClockFilter;
use crate::packets::SnesGameGenieCode;
use crate::packets::SnesLatchFilter;
use crate::packets::SnesLatchTrain;
use crate::packets::SourceLink;
use crate::packets::TasLastModified;
use crate::packets::TotalFrames;
use crate::packets::Transition;
use crate::packets::Unspecified;
use crate::packets::Verified;
use crate::packets::Console;
use crate::packets::ConsoleRegion;
use crate::packets::AttributionKind;
use crate::packets::InitKind;
use crate::packets::InitDevice;
use crate::packets::IdKind;
use crate::packets::IdEncoding;
use crate::packets::PortKind;
use crate::packets::MomentIndexKind;
use crate::packets::TransitionIndexKind;
use crate::packets::TransitionKind;
use crate::packets::Packet;
use crate::packets::Unsupported;
use crate::packets::attribution_kind_from;
use crate::packets::console_from;
use crate::packets::console_region_from;
use crate::packets::id_encoding_from;
use crate::packets::id_kind_from;
use crate::packets::init_device_from;
use crate::packets::init_kind_from;
use crate::packets::moment_index_kind_from;
use crate::packets::port_kind_from;
use crate::packets::transition_index_kind_from;
use crate::packets::transition_kind_from;
use crate::packets::model::PacketV;
use crate::packets::model::MAX_PACKET_DEPTH;
use crate::packets::model::pv;
use crate::strings::bytes_to_string;
use crate::wire::be_val;
use crate::wire::combine16;
use crate::wire::combine32;
use crate::wire::combine64;
use crate::wire::i16_of_u16;
use crate::wire::i64_of_u64;
use crate::wire::i16_from_bits;
use crate::wire::i64_from_bits;
use crate::wire::lemma_be_val_prefix_le;
use crate::wire::lemma_be_val_push;
use crate::wire::subvec;

verus! {

/// Why a decode failed. A failed decode consumes nothing: the caller goes on
/// from its original position.
#[derive(Debug, Copy, Clone, PartialEq, Eq, Structural)]
pub enum DecodeError {
    /// Ran out of bytes while parsing.
    EndOfStream,
    /// Bytes that should have been UTF-8 were not.
    InvalidUtf8,
    /// An integer did not correspond to any variant of its enumeration.
    InvalidEnum,
    /// A boolean byte held a value other than 0 or 1.
    InvalidBool,
    /// The packet key read from the input is not the expected variant's key.
    WrongKey,
    /// A length larger than this platform can index.
    OversizedLength,
    /// A length prefix whose exponent byte is zero; the format reserves it.
    ExponentIsZero,
    /// A field or payload length inconsistent with the payload schema.
    WrongLength,
    /// Packet nesting deeper than [`MAX_PACKET_DEPTH`].
    NestingLimit,
}

// ---------------------------------------------------------------------------
// Specification-level readers
// ---------------------------------------------------------------------------

/// What reading a length prefix at `pos` yields: the length and the position
/// after it, or the exact error.
pub open spec fn spec_read_plen(s: Seq<u8>, pos: int) -> Result<(usize, usize), DecodeError> {
    if pos + 1 > s.len() {
        Result::Err(DecodeError::EndOfStream)
    } else if s[pos] == 0 {
        Result::Err(DecodeError::ExponentIsZero)
    } else {
        let e = s[pos] as int;
        if pos + 1 + e > s.len() {
            Result::Err(DecodeError::EndOfStream)
        } else if be_val(s.subrange(pos + 1, pos + 1 + e)) > usize::MAX {
            Result::Err(DecodeError::OversizedLength)
        } else {
            Result::Ok((be_val(s.subrange(pos + 1, pos + 1 + e)) as usize, (pos + 1 + e) as usize))
        }
    }
}

/// What reading a packet frame for the given key yields: the payload window,
/// or the exact error.
pub open spec fn spec_read_frame(s: Seq<u8>, pos: int, k0: u8, k1: u8) -> Result<
    (usize, usize),
    DecodeError,
> {
    if pos + 2 > s.len() {
        Result::Err(DecodeError::EndOfStream)
    } else if s[pos] != k0 || s[pos + 1] != k1 {
        Result::Err(DecodeError::WrongKey)
    } else {
        match spec_read_plen(s, pos + 2) {
            Result::Err(e) => Result::Err(e),
            Result::Ok((n, q)) => if q + n > s.len() {
                Result::Err(DecodeError::EndOfStream)
            } else {
                Result::Ok((q, (q + n) as usize))
            },
        }
    }
}

/// The tail of a latch-train payload: each group of eight bytes, big-endian.
pub open spec fn words_of(p: Seq<u8>) -> Seq<u64>
    decreases p.len(),
{
    if p.len() < 8 {
        Seq::<u64>::empty()
    } else {
        seq![combine64(p.subrange(0, 8))] + words_of(p.subrange(8, p.len() as int))
    }
}

/// The payload schema of [`ConsoleType`], as a function of the payload window.
pub open spec fn spec_parse_console_type_payload(s: Seq<u8>, ps: usize, pe: usize) -> Result<
    (PacketV, usize),
    DecodeError,
>
{
    if pe - ps < 1 {
        Result::Err(DecodeError::WrongLength)
    } else {
    match console_from(s[ps as int]) {
        Option::None => Result::Err(DecodeError::InvalidEnum),
        Option::Some(f_console) => {
    if valid_utf8(s.subrange(ps as int + 1, pe as int)) {
        Result::Ok((PacketV::ConsoleType { console: f_console, name: decode_utf8(s.subrange(ps as int + 1, pe as int)) }, pe))
    } else {
        Result::Err(DecodeError::InvalidUtf8)
    }
        },
    }
    }
}

/// What decoding a [`ConsoleType`] at `pos` yields.
pub open spec fn spec_decode_console_type(s: Seq<u8>, pos: int) -> Result<
    (PacketV, usize),
    DecodeError,
>
{
    match spec_read_frame(s, pos, 0x0, 0x1) {
        Result::Err(e) => Result::Err(e),
        Result::Ok((ps, pe)) => spec_parse_console_type_payload(s, ps, pe),
    }
}

/// The payload schema of [`ConsoleRegion`], as a function of the payload window.
pub open spec fn spec_parse_console_region_packet_payload(s: Seq<u8>, ps: usize, pe: usize) -> Result<
    (PacketV, usize),
    DecodeError,
>
{
    if pe - ps != 1 {
        Result::Err(DecodeError::WrongLength)
    } else {
    match console_region_from(s[ps as int]) {
        Option::None => Result::Err(DecodeError::InvalidEnum),
        Option::Some(f_region) => {
    Result::Ok((PacketV::ConsoleRegion { region: f_region }, pe))
        },
    }
    }
}

/// What decoding a [`ConsoleRegion`] at `pos` yields.
pub open spec fn spec_decode_console_region_packet(s: Seq<u8>, pos: int) -> Result<
    (PacketV, usize),
    DecodeError,
>
{
    match spec_read_frame(s, pos, 0x0, 0x2) {
        Result::Err(e) => Result::Err(e),
        Result::Ok((ps, pe)) => spec_parse_console_region_packet_payload(s, ps, pe),
    }
}

/// The payload schema of [`GameTitle`], as a function of the payload window.
pub open spec fn spec_parse_game_title_payload(s: Seq<u8>, ps: usize, pe: usize) -> Result<
    (PacketV, usize),
    DecodeError,
>
{
    {
    if valid_utf8(s.subrange(ps as int, pe as int)) {
        Result::Ok((PacketV::GameTitle { title: decode_utf8(s.subrange(ps as int, pe as int)) }, pe))
    } else {
        Result::Err(DecodeError::InvalidUtf8)
    }
    }
}

/// What decoding a [`GameTitle`] at `pos` yields.
pub open spec fn spec_decode_game_title(s: Seq<u8>, pos: int) -> Result<
    (PacketV, usize),
    DecodeError,
>
{
    match spec_read_frame(s, pos, 0x0, 0x3) {
        Result::Err(e) => Result::Err(e),
        Result::Ok((ps, pe)) => spec_parse_game_title_payload(s, ps, pe),
    }
}

/// The payload schema of [`RomName`], as a function of the payload window.
pub open spec fn spec_parse_rom_name_payload(s: Seq<u8>, ps: usize, pe: usize) -> Result<
    (PacketV, usize),
    DecodeError,
>
{
    {
    if valid_utf8(s.subrange(ps as int, pe as int)) {
        Result::Ok((PacketV::RomName { name: decode_utf8(s.subrange(ps as int, pe as int)) }, pe))
    } else {
        Result::Err(DecodeError::InvalidUtf8)
    }
    }
}

/// What decoding a [`RomName`] at `pos` yields.
pub open spec fn spec_decode_rom_name(s: Seq<u8>, pos: int) -> Result<
    (PacketV, usize),
    DecodeError,
>
{
    match spec_read_frame(s, pos, 0x0, 0x4) {
        Result::Err(e) => Result::Err(e),
        Result::Ok((ps, pe)) => spec_parse_rom_name_payload(s, ps, pe),
    }
}

/// The payload schema of [`Attribution`], as a function of the payload window.
pub open spec fn spec_parse_attribution_payload(s: Seq<u8>, ps: usize, pe: usize) -> Result<
    (PacketV, usize),
    DecodeError,
>
{
    if pe - ps < 1 {
        Result::Err(DecodeError::WrongLength)
    } else {
    match attribution_kind_from(s[ps as int]) {
        Option::None => Result::Err(DecodeError::InvalidEnum),
        Option::Some(f_kind) => {
    if valid_utf8(s.subrange(ps as int + 1, pe as int)) {
        Result::Ok((PacketV::Attribution { kind: f_kind, name: decode_utf8(s.subrange(ps as int + 1, pe as int)) }, pe))
    } else {
        Result::Err(DecodeError::InvalidUtf8)
    }
        },
    }
    }
}

/// What decoding a [`Attribution`] at `pos` yields.
pub open spec fn spec_decode_attribution(s: Seq<u8>, pos: int) -> Result<
    (PacketV, usize),
    DecodeError,
>
{
    match spec_read_frame(s, pos, 0x0, 0x5) {
        Result::Err(e) => Result::Err(e),
        Result::Ok((ps, pe)) => spec_parse_attribution_payload(s, ps, pe),
    }
}

/// The payload schema of [`Category`], as a function of the payload window.
pub open spec fn spec_parse_category_payload(s: Seq<u8>, ps: usize, pe: usize) -> Result<
    (PacketV, usize),
    DecodeError,
>
{
    {
    if valid_utf8(s.subrange(ps as int, pe as int)) {
        Result::Ok((PacketV::Category { category: decode_utf8(s.subrange(ps as int, pe as int)) }, pe))
    } else {
        Result::Err(DecodeError::InvalidUtf8)
    }
    }
}

/// What decoding a [`Category`] at `pos` yields.
pub open spec fn spec_decode_category(s: Seq<u8>, pos: int) -> Result<
    (PacketV, usize),
    DecodeError,
>
{
    match spec_read_frame(s, pos, 0x0, 0x6) {
        Result::Err(e) => Result::Err(e),
        Result::Ok((ps, pe)) => spec_parse_category_payload(s, ps, pe),
    }
}

/// The payload schema of [`EmulatorName`], as a function of the payload window.
pub open spec fn spec_parse_emulator_name_payload(s: Seq<u8>, ps: usize, pe: usize) -> Result<
    (PacketV, usize),
    DecodeError,
>
{
    {
    if valid_utf8(s.subrange(ps as int, pe as int)) {
        Result::Ok((PacketV::EmulatorName { name: decode_utf8(s.subrange(ps as int, pe as int)) }, pe))
    } else {
        Result::Err(DecodeError::InvalidUtf8)
    }
    }
}

/// What decoding a [`EmulatorName`] at `pos` yields.
pub open spec fn spec_decode_emulator_name(s: Seq<u8>, pos: int) -> Result<
    (PacketV, usize),
    DecodeError,
>
{
    match spec_read_frame(s, pos, 0x0, 0x7) {
        Result::Err(e) => Result::Err(e),
        Result::Ok((ps, pe)) => spec_parse_emulator_name_payload(s, ps, pe),
    }
}

/// The payload schema of [`EmulatorVersion`], as a function of the payload window.
pub open spec fn spec_parse_emulator_version_payload(s: Seq<u8>, ps: usize, pe: usize) -> Result<
    (PacketV, usize),
    DecodeError,
>
{
    {
    if valid_utf8(s.subrange(ps as int, pe as int)) {
        Result::Ok((PacketV::EmulatorVersion { version: decode_utf8(s.subrange(ps as int, pe as int)) }, pe))
    } else {
        Result::Err(DecodeError::InvalidUtf8)
    }
    }
}

/// What decoding a [`EmulatorVersion`] at `pos` yields.
pub open spec fn spec_decode_emulator_version(s: Seq<u8>, pos: int) -> Result<
    (PacketV, usize),
    DecodeError,
>
{
    match spec_read_frame(s, pos, 0x0, 0x8) {
        Result::Err(e) => Result::Err(e),
        Result::Ok((ps, pe)) => spec_parse_emulator_version_payload(s, ps, pe),
    }
}

/// The payload schema of [`EmulatorCore`], as a function of the payload window.
pub open spec fn spec_parse_emulator_core_payload(s: Seq<u8>, ps: usize, pe: usize) -> Result<
    (PacketV, usize),
    DecodeError,
>
{
    {
    if valid_utf8(s.subrange(ps as int, pe as int)) {
        Result::Ok((PacketV::EmulatorCore { core: decode_utf8(s.subrange(ps as int, pe as int)) }, pe))
    } else {
        Result::Err(DecodeError::InvalidUtf8)
    }
    }
}

/// What decoding a [`EmulatorCore`] at `pos` yields.
pub open spec fn spec_decode_emulator_core(s: Seq<u8>, pos: int) -> Result<
    (PacketV, usize),
    DecodeError,
>
{
    match spec_read_frame(s, pos, 0x0, 0x9) {
        Result::Err(e) => Result::Err(e),
        Result::Ok((ps, pe)) => spec_parse_emulator_core_payload(s, ps, pe),
    }
}

/// The payload schema of [`TasLastModified`], as a function of the payload window.
pub open spec fn spec_parse_tas_last_modified_payload(s: Seq<u8>, ps: usize, pe: usize) -> Result<
    (PacketV, usize),
    DecodeError,
>
{
    if pe - ps != 8 {
        Result::Err(DecodeError::WrongLength)
    } else {
    Result::Ok((PacketV::TasLastModified { timestamp: i64_of_u64(combine64(s.subrange(ps as int, ps as int + 8))) }, pe))
    }
}

/// What decoding a [`TasLastModified`] at `pos` yields.
pub open spec fn spec_decode_tas_last_modified(s: Seq<u8>, pos: int) -> Result<
    (PacketV, usize),
    DecodeError,
>
{
    match spec_read_frame(s, pos, 0x0, 0xa) {
        Result::Err(e) => Result::Err(e),
        Result::Ok((ps, pe)) => spec_parse_tas_last_modified_payload(s, ps, pe),
    }
}

/// The payload schema of [`DumpCreated`], as a function of the payload window.
pub open spec fn spec_parse_dump_created_payload(s: Seq<u8>, ps: usize, pe: usize) -> Result<
    (PacketV, usize),
    DecodeError,
>
{
    if pe - ps != 8 {
        Result::Err(DecodeError::WrongLength)
    } else {
    Result::Ok((PacketV::DumpCreated { timestamp: i64_of_u64(combine64(s.subrange(ps as int, ps as int + 8))) }, pe))
    }
}

/// What decoding a [`DumpCreated`] at `pos` yields.
pub open spec fn spec_decode_dump_created(s: Seq<u8>, pos: int) -> Result<
    (PacketV, usize),
    DecodeError,
>
{
    match spec_read_frame(s, pos, 0x0, 0xb) {
        Result::Err(e) => Result::Err(e),
        Result::Ok((ps, pe)) => spec_parse_dump_created_payload(s, ps, pe),
    }
}

/// The payload schema of [`DumpLastModified`], as a function of the payload window.
pub open spec fn spec_parse_dump_last_modified_payload(s: Seq<u8>, ps: usize, pe: usize) -> Result<
    (PacketV, usize),
    DecodeError,
>
{
    if pe - ps != 8 {
        Result::Err(DecodeError::WrongLength)
    } else {
    Result::Ok((PacketV::DumpLastModified { timestamp: i64_of_u64(combine64(s.subrange(ps as int, ps as int + 8))) }, pe))
    }
}

/// What decoding a [`DumpLastModified`] at `pos` yields.
pub open spec fn spec_decode_dump_last_modified(s: Seq<u8>, pos: int) -> Result<
    (PacketV, usize),
    DecodeError,
>
{
    match spec_read_frame(s, pos, 0x0, 0xc) {
        Result::Err(e) => Result::Err(e),
        Result::Ok((ps, pe)) => spec_parse_dump_last_modified_payload(s, ps, pe),
    }
}

/// The payload schema of [`TotalFrames`], as a function of the payload window.
pub open spec fn spec_parse_total_frames_payload(s: Seq<u8>, ps: usize, pe: usize) -> Result<
    (PacketV, usize),
    DecodeError,
>
{
    if pe - ps != 4 {
        Result::Err(DecodeError::WrongLength)
    } else {
    Result::Ok((PacketV::TotalFrames { frames: combine32(s[ps as int], s[ps as int + 1], s[ps as int + 2], s[ps as int + 3]) }, pe))
    }
}

/// What decoding a [`TotalFrames`] at `pos` yields.
pub open spec fn spec_decode_total_frames(s: Seq<u8>, pos: int) -> Result<
    (PacketV, usize),
    DecodeError,
>
{
    match spec_read_frame(s, pos, 0x0, 0xd) {
        Result::Err(e) => Result::Err(e),
        Result::Ok((ps, pe)) => spec_parse_total_frames_payload(s, ps, pe),
    }
}

/// The payload schema of [`Rerecords`], as a function of the payload window.
pub open spec fn spec_parse_rerecords_payload(s: Seq<u8>, ps: usize, pe: usize) -> Result<
    (PacketV, usize),
    DecodeError,
>
{
    if pe - ps != 4 {
        Result::Err(DecodeError::WrongLength)
    } else {
    Result::Ok((PacketV::Rerecords { rerecords: combine32(s[ps as int], s[ps as int + 1], s[ps as int + 2], s[ps as int + 3]) }, pe))
    }
}

/// What decoding a [`Rerecords`] at `pos` yields.
pub open spec fn spec_decode_rerecords(s: Seq<u8>, pos: int) -> Result<
    (PacketV, usize),
    DecodeError,
>
{
    match spec_read_frame(s, pos, 0x0, 0xe) {
        Result::Err(e) => Result::Err(e),
        Result::Ok((ps, pe)) => spec_parse_rerecords_payload(s, ps, pe),
    }
}

/// The payload schema of [`SourceLink`], as a function of the payload window.
pub open spec fn spec_parse_source_link_payload(s: Seq<u8>, ps: usize, pe: usize) -> Result<
    (PacketV, usize),
    DecodeError,
>
{
    {
    if valid_utf8(s.subrange(ps as int, pe as int)) {
        Result::Ok((PacketV::SourceLink { link: decode_utf8(s.subrange(ps as int, pe as int)) }, pe))
    } else {
        Result::Err(DecodeError::InvalidUtf8)
    }
    }
}

/// What decoding a [`SourceLink`] at `pos` yields.
pub open spec fn spec_decode_source_link(s: Seq<u8>, pos: int) -> Result<
    (PacketV, usize),
    DecodeError,
>
{
    match spec_read_frame(s, pos, 0x0, 0xf) {
        Result::Err(e) => Result::Err(e),
        Result::Ok((ps, pe)) => spec_parse_source_link_payload(s, ps, pe),
    }
}

/// The payload schema of [`BlankFrames`], as a function of the payload window.
pub open spec fn spec_parse_blank_frames_payload(s: Seq<u8>, ps: usize, pe: usize) -> Result<
    (PacketV, usize),
    DecodeError,
>
{
    if pe - ps != 2 {
        Result::Err(DecodeError::WrongLength)
    } else {
    Result::Ok((PacketV::BlankFrames { frames: i16_of_u16(combine16(s[ps as int], s[ps as int + 1])) }, pe))
    }
}

/// What decoding a [`BlankFrames`] at `pos` yields.
pub open spec fn spec_decode_blank_frames(s: Seq<u8>, pos: int) -> Result<
    (PacketV, usize),
    DecodeError,
>
{
    match spec_read_frame(s, pos, 0x0, 0x10) {
        Result::Err(e) => Result::Err(e),
        Result::Ok((ps, pe)) => spec_parse_blank_frames_payload(s, ps, pe),
    }
}

/// The payload schema of [`Verified`], as a function of the payload window.
pub open spec fn spec_parse_verified_payload(s: Seq<u8>, ps: usize, pe: usize) -> Result<
    (PacketV, usize),
    DecodeError,
>
{
    if pe - ps != 1 {
        Result::Err(DecodeError::WrongLength)
    } else {
    if s[ps as int] > 1 {
        Result::Err(DecodeError::InvalidBool)
    } else {
    Result::Ok((PacketV::Verified { verified: (s[ps as int] == 1) }, pe))
    }
    }
}

/// What decoding a [`Verified`] at `pos` yields.
pub open spec fn spec_decode_verified(s: Seq<u8>, pos: int) -> Result<
    (PacketV, usize),
    DecodeError,
>
{
    match spec_read_frame(s, pos, 0x0, 0x11) {
        Result::Err(e) => Result::Err(e),
        Result::Ok((ps, pe)) => spec_parse_verified_payload(s, ps, pe),
    }
}

/// The payload schema of [`MovieLicense`], as a function of the payload window.
pub open spec fn spec_parse_movie_license_payload(s: Seq<u8>, ps: usize, pe: usize) -> Result<
    (PacketV, usize),
    DecodeError,
>
{
    {
    if valid_utf8(s.subrange(ps as int, pe as int)) {
        Result::Ok((PacketV::MovieLicense { license: decode_utf8(s.subrange(ps as int, pe as int)) }, pe))
    } else {
        Result::Err(DecodeError::InvalidUtf8)
    }
    }
}

/// What decoding a [`MovieLicense`] at `pos` yields.
pub open spec fn spec_decode_movie_license(s: Seq<u8>, pos: int) -> Result<
    (PacketV, usize),
    DecodeError,
>
{
    match spec_read_frame(s, pos, 0x0, 0x14) {
        Result::Err(e) => Result::Err(e),
        Result::Ok((ps, pe)) => spec_parse_movie_license_payload(s, ps, pe),
    }
}

/// The payload schema of [`PortController`], as a function of the payload window.
pub open spec fn spec_parse_port_controller_payload(s: Seq<u8>, ps: usize, pe: usize) -> Result<
    (PacketV, usize),
    DecodeError,
>
{
    if pe - ps != 3 {
        Result::Err(DecodeError::WrongLength)
    } else {
    match port_kind_from(combine16(s[ps as int + 1], s[ps as int + 2])) {
        Option::None => Result::Err(DecodeError::InvalidEnum),
        Option::Some(f_kind) => {
    Result::Ok((PacketV::PortController { port: s[ps as int], kind: f_kind }, pe))
        },
    }
    }
}

/// What decoding a [`PortController`] at `pos` yields.
pub open spec fn spec_decode_port_controller(s: Seq<u8>, pos: int) -> Result<
    (PacketV, usize),
    DecodeError,
>
{
    match spec_read_frame(s, pos, 0x0, 0xf0) {
        Result::Err(e) => Result::Err(e),
        Result::Ok((ps, pe)) => spec_parse_port_controller_payload(s, ps, pe),
    }
}

/// The payload schema of [`PortOverread`], as a function of the payload window.
pub open spec fn spec_parse_port_overread_payload(s: Seq<u8>, ps: usize, pe: usize) -> Result<
    (PacketV, usize),
    DecodeError,
>
{
    if pe - ps != 2 {
        Result::Err(DecodeError::WrongLength)
    } else {
    if s[ps as int + 1] > 1 {
        Result::Err(DecodeError::InvalidBool)
    } else {
    Result::Ok((PacketV::PortOverread { port: s[ps as int], high: (s[ps as int + 1] == 1) }, pe))
    }
    }
}

/// What decoding a [`PortOverread`] at `pos` yields.
pub open spec fn spec_decode_port_overread(s: Seq<u8>, pos: int) -> Result<
    (PacketV, usize),
    DecodeError,
>
{
    match spec_read_frame(s, pos, 0x0, 0xf1) {
        Result::Err(e) => Result::Err(e),
        Result::Ok((ps, pe)) => spec_parse_port_overread_payload(s, ps, pe),
    }
}

/// The payload schema of [`NesLatchFilter`], as a function of the payload window.
pub open spec fn spec_parse_nes_latch_filter_payload(s: Seq<u8>, ps: usize, pe: usize) -> Result<
    (PacketV, usize),
    DecodeError,
>
{
    if pe - ps != 2 {
        Result::Err(DecodeError::WrongLength)
    } else {
    Result::Ok((PacketV::NesLatchFilter { time: combine16(s[ps as int], s[ps as int + 1]) }, pe))
    }
}

/// What decoding a [`NesLatchFilter`] at `pos` yields.
pub open spec fn spec_decode_nes_latch_filter(s: Seq<u8>, pos: int) -> Result<
    (PacketV, usize),
    DecodeError,
>
{
    match spec_read_frame(s, pos, 0x1, 0x1) {
        Result::Err(e) => Result::Err(e),
        Result::Ok((ps, pe)) => spec_parse_nes_latch_filter_payload(s, ps, pe),
    }
}

/// The payload schema of [`NesClockFilter`], as a function of the payload window.
pub open spec fn spec_parse_nes_clock_filter_payload(s: Seq<u8>, ps: usize, pe: usize) -> Result<
    (PacketV, usize),
    DecodeError,
>
{
    if pe - ps != 1 {
        Result::Err(DecodeError::WrongLength)
    } else {
    Result::Ok((PacketV::NesClockFilter { time: s[ps as int] }, pe))
    }
}

/// What decoding a [`NesClockFilter`] at `pos` yields.
pub open spec fn spec_decode_nes_clock_filter(s: Seq<u8>, pos: int) -> Result<
    (PacketV, usize),
    DecodeError,
>
{
    match spec_read_frame(s, pos, 0x1, 0x2) {
        Result::Err(e) => Result::Err(e),
        Result::Ok((ps, pe)) => spec_parse_nes_clock_filter_payload(s, ps, pe),
    }
}

/// The payload schema of [`NesGameGenieCode`], as a function of the payload window.
pub open spec fn spec_parse_nes_game_genie_code_payload(s: Seq<u8>, ps: usize, pe: usize) -> Result<
    (PacketV, usize),
    DecodeError,
>
{
    {
    if valid_utf8(s.subrange(ps as int, pe as int)) {
        Result::Ok((PacketV::NesGameGenieCode { code: decode_utf8(s.subrange(ps as int, pe as int)) }, pe))
    } else {
        Result::Err(DecodeError::InvalidUtf8)
    }
    }
}

/// What decoding a [`NesGameGenieCode`] at `pos` yields.
pub open spec fn spec_decode_nes_game_genie_code(s: Seq<u8>, pos: int) -> Result<
    (PacketV, usize),
    DecodeError,
>
{
    match spec_read_frame(s, pos, 0x1, 0x4) {
        Result::Err(e) => Result::Err(e),
        Result::Ok((ps, pe)) => spec_parse_nes_game_genie_code_payload(s, ps, pe),
    }
}

/// The payload schema of [`SnesLatchFilter`], as a function of the payload window.
pub open spec fn spec_parse_snes_latch_filter_payload(s: Seq<u8>, ps: usize, pe: usize) -> Result<
    (PacketV, usize),
    DecodeError,
>
{
    if pe - ps != 2 {
        Result::Err(DecodeError::WrongLength)
    } else {
    Result::Ok((PacketV::SnesLatchFilter { time: combine16(s[ps as int], s[ps as int + 1]) }, pe))
    }
}

/// What decoding a [`SnesLatchFilter`] at `pos` yields.
pub open spec fn spec_decode_snes_latch_filter(s: Seq<u8>, pos: int) -> Result<
    (PacketV, usize),
    DecodeError,
>
{
    match spec_read_frame(s, pos, 0x2, 0x1) {
        Result::Err(e) => Result::Err(e),
        Result::Ok((ps, pe)) => spec_parse_snes_latch_filter_payload(s, ps, pe),
    }
}

/// The payload schema of [`SnesClockFilter`], as a function of the payload window.
pub open spec fn spec_parse_snes_clock_filter_payload(s: Seq<u8>, ps: usize, pe: usize) -> Result<
    (PacketV, usize),
    DecodeError,
>
{
    if pe - ps != 1 {
        Result::Err(DecodeError::WrongLength)
    } else {
    Result::Ok((PacketV::SnesClockFilter { time: s[ps as int] }, pe))
    }
}

/// What decoding a [`SnesClockFilter`] at `pos` yields.
pub open spec fn spec_decode_snes_clock_filter(s: Seq<u8>, pos: int) -> Result<
    (PacketV, usize),
    DecodeError,
>
{
    match spec_read_frame(s, pos, 0x2, 0x2) {
        Result::Err(e) => Result::Err(e),
        Result::Ok((ps, pe)) => spec_parse_snes_clock_filter_payload(s, ps, pe),
    }
}

/// The payload schema of [`SnesGameGenieCode`], as a function of the payload window.
pub open spec fn spec_parse_snes_game_genie_code_payload(s: Seq<u8>, ps: usize, pe: usize) -> Result<
    (PacketV, usize),
    DecodeError,
>
{
    {
    if valid_utf8(s.subrange(ps as int, pe as int)) {
        Result::Ok((PacketV::SnesGameGenieCode { code: decode_utf8(s.subrange(ps as int, pe as int)) }, pe))
    } else {
        Result::Err(DecodeError::InvalidUtf8)
    }
    }
}

/// What decoding a [`SnesGameGenieCode`] at `pos` yields.
pub open spec fn spec_decode_snes_game_genie_code(s: Seq<u8>, pos: int) -> Result<
    (PacketV, usize),
    DecodeError,
>
{
    match spec_read_frame(s, pos, 0x2, 0x4) {
        Result::Err(e) => Result::Err(e),
        Result::Ok((ps, pe)) => spec_parse_snes_game_genie_code_payload(s, ps, pe),
    }
}

/// The payload schema of [`SnesLatchTrain`], as a function of the payload window.
pub open spec fn spec_parse_snes_latch_train_payload(s: Seq<u8>, ps: usize, pe: usize) -> Result<
    (PacketV, usize),
    DecodeError,
>
{
    {
    if (pe - ps) % 8 != 0 {
        Result::Err(DecodeError::WrongLength)
    } else {
        Result::Ok((PacketV::SnesLatchTrain { latch_trains: words_of(s.subrange(ps as int, pe as int)) }, pe))
    }
    }
}

/// What decoding a [`SnesLatchTrain`] at `pos` yields.
pub open spec fn spec_decode_snes_latch_train(s: Seq<u8>, pos: int) -> Result<
    (PacketV, usize),
    DecodeError,
>
{
    match spec_read_frame(s, pos, 0x2, 0x5) {
        Result::Err(e) => Result::Err(e),
        Result::Ok((ps, pe)) => spec_parse_snes_latch_train_payload(s, ps, pe),
    }
}

/// The payload schema of [`GenesisGameGenieCode`], as a function of the payload window.
pub open spec fn spec_parse_genesis_game_genie_code_payload(s: Seq<u8>, ps: usize, pe: usize) -> Result<
    (PacketV, usize),
    DecodeError,
>
{
    {
    if valid_utf8(s.subrange(ps as int, pe as int)) {
        Result::Ok((PacketV::GenesisGameGenieCode { code: decode_utf8(s.subrange(ps as int, pe as int)) }, pe))
    } else {
        Result::Err(DecodeError::InvalidUtf8)
    }
    }
}

/// What decoding a [`GenesisGameGenieCode`] at `pos` yields.
pub open spec fn spec_decode_genesis_game_genie_code(s: Seq<u8>, pos: int) -> Result<
    (PacketV, usize),
    DecodeError,
>
{
    match spec_read_frame(s, pos, 0x8, 0x4) {
        Result::Err(e) => Result::Err(e),
        Result::Ok((ps, pe)) => spec_parse_genesis_game_genie_code_payload(s, ps, pe),
    }
}

/// The payload schema of [`InputChunk`], as a function of the payload window.
pub open spec fn spec_parse_input_chunk_payload(s: Seq<u8>, ps: usize, pe: usize) -> Result<
    (PacketV, usize),
    DecodeError,
>
{
    if pe - ps < 1 {
        Result::Err(DecodeError::WrongLength)
    } else {
    Result::Ok((PacketV::InputChunk { port: s[ps as int], inputs: s.subrange(ps as int + 1, pe as int) }, pe))
    }
}

/// What decoding a [`InputChunk`] at `pos` yields.
pub open spec fn spec_decode_input_chunk(s: Seq<u8>, pos: int) -> Result<
    (PacketV, usize),
    DecodeError,
>
{
    match spec_read_frame(s, pos, 0xfe, 0x1) {
        Result::Err(e) => Result::Err(e),
        Result::Ok((ps, pe)) => spec_parse_input_chunk_payload(s, ps, pe),
    }
}

/// The payload schema of [`InputMoment`], as a function of the payload window.
pub open spec fn spec_parse_input_moment_payload(s: Seq<u8>, ps: usize, pe: usize) -> Result<
    (PacketV, usize),
    DecodeError,
>
{
    if pe - ps < 11 {
        Result::Err(DecodeError::WrongLength)
    } else {
    if s[ps as int + 1] > 1 {
        Result::Err(DecodeError::InvalidBool)
    } else {
    match moment_index_kind_from(s[ps as int + 2]) {
        Option::None => Result::Err(DecodeError::InvalidEnum),
        Option::Some(f_index_type) => {
    Result::Ok((PacketV::InputMoment { port: s[ps as int], hold: (s[ps as int + 1] == 1), index_type: f_index_type, index: combine64(s.subrange(ps as int + 3, ps as int + 11)), inputs: s.subrange(ps as int + 11, pe as int) }, pe))
        },
    }
    }
    }
}

/// What decoding a [`InputMoment`] at `pos` yields.
pub open spec fn spec_decode_input_moment(s: Seq<u8>, pos: int) -> Result<
    (PacketV, usize),
    DecodeError,
>
{
    match spec_read_frame(s, pos, 0xfe, 0x2) {
        Result::Err(e) => Result::Err(e),
        Result::Ok((ps, pe)) => spec_parse_input_moment_payload(s, ps, pe),
    }
}

/// The payload schema of [`Transition`], as a function of the payload window.
pub open spec fn spec_parse_transition_payload(s: Seq<u8>, ps: usize, pe: usize, depth: nat) -> Result<
    (PacketV, usize),
    DecodeError,
>
    decreases MAX_PACKET_DEPTH - depth, 0int,
{
    if pe - ps < 11 {
        Result::Err(DecodeError::WrongLength)
    } else {
    match transition_index_kind_from(s[ps as int + 1]) {
        Option::None => Result::Err(DecodeError::InvalidEnum),
        Option::Some(f_index_type) => {
    match transition_kind_from(s[ps as int + 10]) {
        Option::None => Result::Err(DecodeError::InvalidEnum),
        Option::Some(f_transition_type) => {
    if pe - ps == 11 {
        Result::Ok((PacketV::Transition { port: s[ps as int], index_type: f_index_type, index: combine64(s.subrange(ps as int + 2, ps as int + 10)), transition_type: f_transition_type, inner_packet: Option::None }, pe))
    } else if depth >= MAX_PACKET_DEPTH {
        Result::Err(DecodeError::NestingLimit)
    } else {
        match spec_decode_packet(s, ps as int + 11, (depth + 1) as nat) {
            Result::Err(e) => Result::Err(e),
            Result::Ok((iv, end)) => if end == pe {
                Result::Ok((PacketV::Transition { port: s[ps as int], index_type: f_index_type, index: combine64(s.subrange(ps as int + 2, ps as int + 10)), transition_type: f_transition_type, inner_packet: Option::Some(Box::new(iv)) }, pe))
            } else {
                Result::Err(DecodeError::WrongLength)
            },
        }
    }
        },
    }
        },
    }
    }
}

/// What decoding a [`Transition`] at `pos` yields.
pub open spec fn spec_decode_transition(s: Seq<u8>, pos: int, depth: nat) -> Result<
    (PacketV, usize),
    DecodeError,
>
    decreases MAX_PACKET_DEPTH - depth, 1int,
{
    match spec_read_frame(s, pos, 0xfe, 0x3) {
        Result::Err(e) => Result::Err(e),
        Result::Ok((ps, pe)) => spec_parse_transition_payload(s, ps, pe, depth),
    }
}

/// The payload schema of [`LagFrameChunk`], as a function of the payload window.
pub open spec fn spec_parse_lag_frame_chunk_payload(s: Seq<u8>, ps: usize, pe: usize) -> Result<
    (PacketV, usize),
    DecodeError,
>
{
    if pe - ps != 8 {
        Result::Err(DecodeError::WrongLength)
    } else {
    Result::Ok((PacketV::LagFrameChunk { movie_frame: combine32(s[ps as int], s[ps as int + 1], s[ps as int + 2], s[ps as int + 3]), count: combine32(s[ps as int + 4], s[ps as int + 5], s[ps as int + 6], s[ps as int + 7]) }, pe))
    }
}

/// What decoding a [`LagFrameChunk`] at `pos` yields.
pub open spec fn spec_decode_lag_frame_chunk(s: Seq<u8>, pos: int) -> Result<
    (PacketV, usize),
    DecodeError,
>
{
    match spec_read_frame(s, pos, 0xfe, 0x4) {
        Result::Err(e) => Result::Err(e),
        Result::Ok((ps, pe)) => spec_parse_lag_frame_chunk_payload(s, ps, pe),
    }
}

/// The payload schema of [`MovieTransition`], as a function of the payload window.
pub open spec fn spec_parse_movie_transition_payload(s: Seq<u8>, ps: usize, pe: usize, depth: nat) -> Result<
    (PacketV, usize),
    DecodeError,
>
    decreases MAX_PACKET_DEPTH - depth, 0int,
{
    if pe - ps < 5 {
        Result::Err(DecodeError::WrongLength)
    } else {
    match transition_kind_from(s[ps as int + 4]) {
        Option::None => Result::Err(DecodeError::InvalidEnum),
        Option::Some(f_transition_type) => {
    if pe - ps == 5 {
        Result::Ok((PacketV::MovieTransition { movie_frame: combine32(s[ps as int], s[ps as int + 1], s[ps as int + 2], s[ps as int + 3]), transition_type: f_transition_type, inner_packet: Option::None }, pe))
    } else if depth >= MAX_PACKET_DEPTH {
        Result::Err(DecodeError::NestingLimit)
    } else {
        match spec_decode_packet(s, ps as int + 5, (depth + 1) as nat) {
            Result::Err(e) => Result::Err(e),
            Result::Ok((iv, end)) => if end == pe {
                Result::Ok((PacketV::MovieTransition { movie_frame: combine32(s[ps as int], s[ps as int + 1], s[ps as int + 2], s[ps as int + 3]), transition_type: f_transition_type, inner_packet: Option::Some(Box::new(iv)) }, pe))
            } else {
                Result::Err(DecodeError::WrongLength)
            },
        }
    }
        },
    }
    }
}

/// What decoding a [`MovieTransition`] at `pos` yields.
pub open spec fn spec_decode_movie_transition(s: Seq<u8>, pos: int, depth: nat) -> Result<
    (PacketV, usize),
    DecodeError,
>
    decreases MAX_PACKET_DEPTH - depth, 1int,
{
    match spec_read_frame(s, pos, 0xfe, 0x5) {
        Result::Err(e) => Result::Err(e),
        Result::Ok((ps, pe)) => spec_parse_movie_transition_payload(s, ps, pe, depth),
    }
}

/// The payload schema of [`Comment`], as a function of the payload window.
pub open spec fn spec_parse_comment_payload(s: Seq<u8>, ps: usize, pe: usize) -> Result<
    (PacketV, usize),
    DecodeError,
>
{
    {
    if valid_utf8(s.subrange(ps as int, pe as int)) {
        Result::Ok((PacketV::Comment { comment: decode_utf8(s.subrange(ps as int, pe as int)) }, pe))
    } else {
        Result::Err(DecodeError::InvalidUtf8)
    }
    }
}

/// What decoding a [`Comment`] at `pos` yields.
pub open spec fn spec_decode_comment(s: Seq<u8>, pos: int) -> Result<
    (PacketV, usize),
    DecodeError,
>
{
    match spec_read_frame(s, pos, 0xff, 0x1) {
        Result::Err(e) => Result::Err(e),
        Result::Ok((ps, pe)) => spec_parse_comment_payload(s, ps, pe),
    }
}

/// The payload schema of [`Experimental`], as a function of the payload window.
pub open spec fn spec_parse_experimental_payload(s: Seq<u8>, ps: usize, pe: usize) -> Result<
    (PacketV, usize),
    DecodeError,
>
{
    if pe - ps != 1 {
        Result::Err(DecodeError::WrongLength)
    } else {
    if s[ps as int] > 1 {
        Result::Err(DecodeError::InvalidBool)
    } else {
    Result::Ok((PacketV::Experimental { experimental: (s[ps as int] == 1) }, pe))
    }
    }
}

/// What decoding a [`Experimental`] at `pos` yields.
pub open spec fn spec_decode_experimental(s: Seq<u8>, pos: int) -> Result<
    (PacketV, usize),
    DecodeError,
>
{
    match spec_read_frame(s, pos, 0xff, 0xfe) {
        Result::Err(e) => Result::Err(e),
        Result::Ok((ps, pe)) => spec_parse_experimental_payload(s, ps, pe),
    }
}

/// The payload schema of [`Unspecified`], as a function of the payload window.
pub open spec fn spec_parse_unspecified_payload(s: Seq<u8>, ps: usize, pe: usize) -> Result<
    (PacketV, usize),
    DecodeError,
>
{
    {
    Result::Ok((PacketV::Unspecified { data: s.subrange(ps as int, pe as int) }, pe))
    }
}

/// What decoding a [`Unspecified`] at `pos` yields.
pub open spec fn spec_decode_unspecified(s: Seq<u8>, pos: int) -> Result<
    (PacketV, usize),
    DecodeError,
>
{
    match spec_read_frame(s, pos, 0xff, 0xff) {
        Result::Err(e) => Result::Err(e),
        Result::Ok((ps, pe)) => spec_parse_unspecified_payload(s, ps, pe),
    }
}

/// The payload schema of [`MemoryInit`].
pub open spec fn spec_parse_memory_init_payload(s: Seq<u8>, ps: usize, pe: usize) -> Result<
    (PacketV, usize),
    DecodeError,
> {
    if pe - ps < 5 {
        Result::Err(DecodeError::WrongLength)
    } else {
        match init_kind_from(s[ps as int]) {
            Option::None => Result::Err(DecodeError::InvalidEnum),
            Option::Some(f_data_type) => {
                match init_device_from(combine16(s[ps as int + 1], s[ps as int + 2])) {
                    Option::None => Result::Err(DecodeError::InvalidEnum),
                    Option::Some(f_device) => {
                        if s[ps as int + 3] > 1 {
                            Result::Err(DecodeError::InvalidBool)
                        } else {
                            let l = s[ps as int + 4] as int;
                            if ps + 5 + l > pe {
                                Result::Err(DecodeError::WrongLength)
                            } else if valid_utf8(s.subrange(ps as int + 5, ps as int + 5 + l)) {
                                Result::Ok(
                                    (
                                        PacketV::MemoryInit {
                                            data_type: f_data_type,
                                            device: f_device,
                                            required: (s[ps as int + 3] == 1),
                                            name: decode_utf8(
                                                s.subrange(ps as int + 5, ps as int + 5 + l),
                                            ),
                                            data: s.subrange(ps as int + 5 + l, pe as int),
                                        },
                                        pe,
                                    ),
                                )
                            } else {
                                Result::Err(DecodeError::InvalidUtf8)
                            }
                        }
                    },
                }
            },
        }
    }
}

/// What decoding a [`MemoryInit`] at `pos` yields.
pub open spec fn spec_decode_memory_init(s: Seq<u8>, pos: int) -> Result<
    (PacketV, usize),
    DecodeError,
> {
    match spec_read_frame(s, pos, 0x00, 0x12) {
        Result::Err(e) => Result::Err(e),
        Result::Ok((ps, pe)) => spec_parse_memory_init_payload(s, ps, pe),
    }
}

/// The payload schema of [`GameIdentifier`].
pub open spec fn spec_parse_game_identifier_payload(s: Seq<u8>, ps: usize, pe: usize) -> Result<
    (PacketV, usize),
    DecodeError,
> {
    if pe - ps < 3 {
        Result::Err(DecodeError::WrongLength)
    } else {
        match id_kind_from(s[ps as int]) {
            Option::None => Result::Err(DecodeError::InvalidEnum),
            Option::Some(f_kind) => {
                match id_encoding_from(s[ps as int + 1]) {
                    Option::None => Result::Err(DecodeError::InvalidEnum),
                    Option::Some(f_encoding) => {
                        let l = s[ps as int + 2] as int;
                        if ps + 3 + l > pe {
                            Result::Err(DecodeError::WrongLength)
                        } else if valid_utf8(s.subrange(ps as int + 3, ps as int + 3 + l)) {
                            Result::Ok(
                                (
                                    PacketV::GameIdentifier {
                                        kind: f_kind,
                                        encoding: f_encoding,
                                        name: decode_utf8(
                                            s.subrange(ps as int + 3, ps as int + 3 + l),
                                        ),
                                        identifier: s.subrange(ps as int + 3 + l, pe as int),
                                    },
                                    pe,
                                ),
                            )
                        } else {
                            Result::Err(DecodeError::InvalidUtf8)
                        }
                    },
                }
            },
        }
    }
}

/// What decoding a [`GameIdentifier`] at `pos` yields.
pub open spec fn spec_decode_game_identifier(s: Seq<u8>, pos: int) -> Result<
    (PacketV, usize),
    DecodeError,
> {
    match spec_read_frame(s, pos, 0x00, 0x13) {
        Result::Err(e) => Result::Err(e),
        Result::Ok((ps, pe)) => spec_parse_game_identifier_payload(s, ps, pe),
    }
}

/// The payload schema of [`MovieFile`].
pub open spec fn spec_parse_movie_file_payload(s: Seq<u8>, ps: usize, pe: usize) -> Result<
    (PacketV, usize),
    DecodeError,
> {
    if pe - ps < 1 {
        Result::Err(DecodeError::WrongLength)
    } else {
        let l = s[ps as int] as int;
        if ps + 1 + l > pe {
            Result::Err(DecodeError::WrongLength)
        } else if valid_utf8(s.subrange(ps as int + 1, ps as int + 1 + l)) {
            Result::Ok(
                (
                    PacketV::MovieFile {
                        name: decode_utf8(s.subrange(ps as int + 1, ps as int + 1 + l)),
                        data: s.subrange(ps as int + 1 + l, pe as int),
                    },
                    pe,
                ),
            )
        } else {
            Result::Err(DecodeError::InvalidUtf8)
        }
    }
}

/// What decoding a [`MovieFile`] at `pos` yields.
pub open spec fn spec_decode_movie_file(s: Seq<u8>, pos: int) -> Result<
    (PacketV, usize),
    DecodeError,
> {
    match spec_read_frame(s, pos, 0x00, 0x15) {
        Result::Err(e) => Result::Err(e),
        Result::Ok((ps, pe)) => spec_parse_movie_file_payload(s, ps, pe),
    }
}

/// What decoding an [`Unsupported`] packet at `pos` yields: any two key
/// bytes, a length prefix, and the payload verbatim.
pub open spec fn spec_decode_unsupported(s: Seq<u8>, pos: int) -> Result<
    (PacketV, usize),
    DecodeError,
> {
    if pos + 2 > s.len() {
        Result::Err(DecodeError::EndOfStream)
    } else {
        match spec_read_plen(s, pos + 2) {
            Result::Err(e) => Result::Err(e),
            Result::Ok((n, q)) => if q + n > s.len() {
                Result::Err(DecodeError::EndOfStream)
            } else {
                Result::Ok(
                    (
                        PacketV::Unsupported {
                            key: s.subrange(pos, pos + 2),
                            data: s.subrange(q as int, q + n),
                        },
                        (q + n) as usize,
                    ),
                )
            },
        }
    }
}

/// Falls back to the unsupported decoder when a typed decode fails: the
/// dispatcher swallows the typed error and retries from the same position.
pub open spec fn or_unsupported(
    r: Result<(PacketV, usize), DecodeError>,
    s: Seq<u8>,
    pos: int,
) -> Result<(PacketV, usize), DecodeError> {
    match r {
        Result::Ok(x) => Result::Ok(x),
        Result::Err(_) => spec_decode_unsupported(s, pos),
    }
}

/// What the packet dispatcher yields at `pos`: the typed variant whose key
/// matches, with a fall-through to the unsupported form when the typed
/// decode fails; an unknown key goes straight to the unsupported form.
pub open spec fn spec_decode_packet(s: Seq<u8>, pos: int, depth: nat) -> Result<
    (PacketV, usize),
    DecodeError,
>
    decreases MAX_PACKET_DEPTH - depth, 2int,
{
    if depth > MAX_PACKET_DEPTH {
        Result::Err(DecodeError::NestingLimit)
    } else if pos + 2 > s.len() {
        Result::Err(DecodeError::EndOfStream)
    } else {
        let k0 = s[pos];
        let k1 = s[pos + 1];
        if k0 == 0x0 && k1 == 0x1 {
            or_unsupported(spec_decode_console_type(s, pos), s, pos)
        } else if k0 == 0x0 && k1 == 0x2 {
            or_unsupported(spec_decode_console_region_packet(s, pos), s, pos)
        } else if k0 == 0x0 && k1 == 0x3 {
            or_unsupported(spec_decode_game_title(s, pos), s, pos)
        } else if k0 == 0x0 && k1 == 0x4 {
            or_unsupported(spec_decode_rom_name(s, pos), s, pos)
        } else if k0 == 0x0 && k1 == 0x5 {
            or_unsupported(spec_decode_attribution(s, pos), s, pos)
        } else if k0 == 0x0 && k1 == 0x6 {
            or_unsupported(spec_decode_category(s, pos), s, pos)
        } else if k0 == 0x0 && k1 == 0x7 {
            or_unsupported(spec_decode_emulator_name(s, pos), s, pos)
        } else if k0 == 0x0 && k1 == 0x8 {
            or_unsupported(spec_decode_emulator_version(s, pos), s, pos)
        } else if k0 == 0x0 && k1 == 0x9 {
            or_unsupported(spec_decode_emulator_core(s, pos), s, pos)
        } else if k0 == 0x0 && k1 == 0xa {
            or_unsupported(spec_decode_tas_last_modified(s, pos), s, pos)
        } else if k0 == 0x0 && k1 == 0xb {
            or_unsupported(spec_decode_dump_created(s, pos), s, pos)
        } else if k0 == 0x0 && k1 == 0xc {
            or_unsupported(spec_decode_dump_last_modified(s, pos), s, pos)
        } else if k0 == 0x0 && k1 == 0xd {
            or_unsupported(spec_decode_total_frames(s, pos), s, pos)
        } else if k0 == 0x0 && k1 == 0xe {
            or_unsupported(spec_decode_rerecords(s, pos), s, pos)
        } else if k0 == 0x0 && k1 == 0xf {
            or_unsupported(spec_decode_source_link(s, pos), s, pos)
        } else if k0 == 0x0 && k1 == 0x10 {
            or_unsupported(spec_decode_blank_frames(s, pos), s, pos)
        } else if k0 == 0x0 && k1 == 0x11 {
            or_unsupported(spec_decode_verified(s, pos), s, pos)
        } else if k0 == 0x0 && k1 == 0x12 {
            or_unsupported(spec_decode_memory_init(s, pos), s, pos)
        } else if k0 == 0x0 && k1 == 0x13 {
            or_unsupported(spec_decode_game_identifier(s, pos), s, pos)
        } else if k0 == 0x0 && k1 == 0x14 {
            or_unsupported(spec_decode_movie_license(s, pos), s, pos)
        } else if k0 == 0x0 && k1 == 0x15 {
            or_unsupported(spec_decode_movie_file(s, pos), s, pos)
        } else if k0 == 0x0 && k1 == 0xf0 {
            or_unsupported(spec_decode_port_controller(s, pos), s, pos)
        } else if k0 == 0x0 && k1 == 0xf1 {
            or_unsupported(spec_decode_port_overread(s, pos), s, pos)
        } else if k0 == 0x1 && k1 == 0x1 {
            or_unsupported(spec_decode_nes_latch_filter(s, pos), s, pos)
        } else if k0 == 0x1 && k1 == 0x2 {
            or_unsupported(spec_decode_nes_clock_filter(s, pos), s, pos)
        } else if k0 == 0x1 && k1 == 0x4 {
            or_unsupported(spec_decode_nes_game_genie_code(s, pos), s, pos)
        } else if k0 == 0x2 && k1 == 0x1 {
            or_unsupported(spec_decode_snes_latch_filter(s, pos), s, pos)
        } else if k0 == 0x2 && k1 == 0x2 {
            or_unsupported(spec_decode_snes_clock_filter(s, pos), s, pos)
        } else if k0 == 0x2 && k1 == 0x4 {
            or_unsupported(spec_decode_snes_game_genie_code(s, pos), s, pos)
        } else if k0 == 0x2 && k1 == 0x5 {
            or_unsupported(spec_decode_snes_latch_train(s, pos), s, pos)
        } else if k0 == 0x8 && k1 == 0x4 {
            or_unsupported(spec_decode_genesis_game_genie_code(s, pos), s, pos)
        } else if k0 == 0xfe && k1 == 0x1 {
            or_unsupported(spec_decode_input_chunk(s, pos), s, pos)
        } else if k0 == 0xfe && k1 == 0x2 {
            or_unsupported(spec_decode_input_moment(s, pos), s, pos)
        } else if k0 == 0xfe && k1 == 0x3 {
            or_unsupported(spec_decode_transition(s, pos, depth), s, pos)
        } else if k0 == 0xfe && k1 == 0x4 {
            or_unsupported(spec_decode_lag_frame_chunk(s, pos), s, pos)
        } else if k0 == 0xfe && k1 == 0x5 {
            or_unsupported(spec_decode_movie_transition(s, pos, depth), s, pos)
        } else if k0 == 0xff && k1 == 0x1 {
            or_unsupported(spec_decode_comment(s, pos), s, pos)
        } else if k0 == 0xff && k1 == 0xfe {
            or_unsupported(spec_decode_experimental(s, pos), s, pos)
        } else if k0 == 0xff && k1 == 0xff {
            or_unsupported(spec_decode_unspecified(s, pos), s, pos)
        } else {
            spec_decode_unsupported(s, pos)
        }
    }
}

// ---------------------------------------------------------------------------
// Executable readers
// ---------------------------------------------------------------------------

pub(crate) fn get16(data: &Vec<u8>, i: usize) -> (r: u16)
    requires
        i + 2 <= data@.len(),
    ensures
        r == combine16(data@[i as int], data@[i as int + 1]),
{
    let n = data.len();
    let b0 = data[i];
    let b1 = data[i + 1];
    proof {
        assert(i + 2 <= n);
    }
    ((b0 as u16) << 8) | (b1 as u16)
}

fn get32(data: &Vec<u8>, i: usize) -> (r: u32)
    requires
        i + 4 <= data@.len(),
    ensures
        r == combine32(data@[i as int], data@[i as int + 1], data@[i as int + 2], data@[i as int + 3]),
{
    let n = data.len();
    let b0 = data[i];
    let b1 = data[i + 1];
    let b2 = data[i + 2];
    let b3 = data[i + 3];
    proof {
        assert(i + 4 <= n);
    }
    ((b0 as u32) << 24) | ((b1 as u32) << 16) | ((b2 as u32) << 8) | (b3 as u32)
}

fn get64(data: &Vec<u8>, i: usize) -> (r: u64)
    requires
        i + 8 <= data@.len(),
    ensures
        r == combine64(data@.subrange(i as int, i as int + 8)),
{
    let n = data.len();
    proof {
        assert(i + 8 <= n);
    }
    let b0 = data[i];
    let b1 = data[i + 1];
    let b2 = data[i + 2];
    let b3 = data[i + 3];
    let b4 = data[i + 4];
    let b5 = data[i + 5];
    let b6 = data[i + 6];
    let b7 = data[i + 7];
    let r = ((b0 as u64) << 56) | ((b1 as u64) << 48) | ((b2 as u64) << 40) | ((b3 as u64) << 32)
        | ((b4 as u64) << 24) | ((b5 as u64) << 16) | ((b6 as u64) << 8) | (b7 as u64);
    proof {
        let s = data@.subrange(i as int, i as int + 8);
        assert(s[0] == data@[i as int] && s[1] == data@[i as int + 1] && s[2] == data@[i as int + 2]
            && s[3] == data@[i as int + 3] && s[4] == data@[i as int + 4] && s[5] == data@[i as int
            + 5] && s[6] == data@[i as int + 6] && s[7] == data@[i as int + 7]);
    }
    r
}

/// Reads a length prefix: the exponent byte, then that many big-endian
/// bytes, rejecting a zero exponent and lengths beyond this platform.
fn read_plen(data: &Vec<u8>, pos: usize) -> (r: Result<(usize, usize), DecodeError>)
    requires
        pos <= data@.len(),
    ensures
        r == spec_read_plen(data@, pos as int),
        r matches Ok((n, q)) ==> pos + 2 <= q <= data@.len(),
{
    if pos == data.len() {
        return Result::Err(DecodeError::EndOfStream);
    }
    let e = data[pos];
    if e == 0 {
        return Result::Err(DecodeError::ExponentIsZero);
    }
    let e = e as usize;
    if e > data.len() - (pos + 1) {
        return Result::Err(DecodeError::EndOfStream);
    }
    let ghost w = data@.subrange(pos as int + 1, pos as int + 1 + e as int);
    let mut acc: usize = 0;
    let mut i: usize = 0;
    while i < e
        invariant
            i <= e,
            pos < data@.len(),
            pos + 1 + e <= data@.len() <= usize::MAX,
            e == data@[pos as int] as usize,
            data@[pos as int] != 0,
            w == data@.subrange(pos as int + 1, pos as int + 1 + e as int),
            acc as nat == be_val(w.subrange(0, i as int)),
        decreases e - i,
    {
        let idx = pos + 1 + i;
        let b = data[idx];
        proof {
            assert(w[i as int] == b);
            lemma_be_val_push(w.subrange(0, i as int), b);
            assert(w.subrange(0, i as int).push(b) =~= w.subrange(0, i as int + 1));
        }
        if acc > (usize::MAX - b as usize) / 256 {
            proof {
                let m = usize::MAX as int;
                assert(acc * 256 + b > m) by (nonlinear_arith)
                    requires
                        acc > (m - b) / 256,
                        0 <= b < 256,
                        m >= 255,
                        acc >= 0,
                ;
                lemma_be_val_prefix_le(w, i as int + 1);
            }
            return Result::Err(DecodeError::OversizedLength);
        }
        proof {
            let m = usize::MAX as int;
            assert(acc * 256 + b <= m) by (nonlinear_arith)
                requires
                    acc <= (m - b) / 256,
                    0 <= b < 256,
                    m >= 255,
                    acc >= 0,
            ;
        }
        acc = acc * 256 + (b as usize);
        i = i + 1;
    }
    proof {
        assert(w.subrange(0, e as int) =~= w);
    }
    Result::Ok((acc, pos + 1 + e))
}

/// Reads the outer framing of a packet with the given key and returns the
/// payload window.
fn read_frame(data: &Vec<u8>, pos: usize, k0: u8, k1: u8) -> (r: Result<
    (usize, usize),
    DecodeError,
>)
    ensures
        r == spec_read_frame(data@, pos as int, k0, k1),
        r matches Ok((ps, pe)) ==> pos + 4 <= ps <= pe <= data@.len(),
{
    if pos >= data.len() || data.len() - pos < 2 {
        return Result::Err(DecodeError::EndOfStream);
    }
    if data[pos] != k0 || data[pos + 1] != k1 {
        return Result::Err(DecodeError::WrongKey);
    }
    match read_plen(data, pos + 2) {
        Result::Err(e) => Result::Err(e),
        Result::Ok((n, q)) => {
            if n > data.len() - q {
                Result::Err(DecodeError::EndOfStream)
            } else {
                Result::Ok((q, q + n))
            }
        },
    }
}

/// Reads the groups of eight bytes in the window as big-endian words.
fn read_words(data: &Vec<u8>, ps: usize, pe: usize) -> (r: Vec<u64>)
    requires
        ps <= pe <= data@.len(),
        (pe - ps) % 8 == 0,
    ensures
        r@ == words_of(data@.subrange(ps as int, pe as int)),
{
    let mut out: Vec<u64> = Vec::new();
    let mut i: usize = ps;
    while i < pe
        invariant
            ps <= i <= pe <= data@.len(),
            (pe - ps) % 8 == 0,
            (i - ps) % 8 == 0,
            out@ == words_of(data@.subrange(ps as int, i as int)),
        decreases pe - i,
    {
        proof {
            assert(pe - i >= 8) by {
                assert((pe - i) % 8 == 0);
            }
        }
        let w = get64(data, i);
        out.push(w);
        proof {
            lemma_words_of_snoc(
                data@.subrange(ps as int, i as int),
                data@.subrange(i as int, i as int + 8),
            );
            assert(data@.subrange(ps as int, i as int) + data@.subrange(i as int, i as int + 8)
                =~= data@.subrange(ps as int, i as int + 8));
        }
        i = i + 8;
    }
    proof {
        assert(data@.subrange(ps as int, i as int) =~= data@.subrange(ps as int, pe as int));
    }
    out
}

/// Splitting off eight more bytes appends one more word.
proof fn lemma_words_of_snoc(p: Seq<u8>, w8: Seq<u8>)
    requires
        p.len() % 8 == 0,
        w8.len() == 8,
    ensures
        words_of(p + w8) == words_of(p) + seq![combine64(w8)],
    decreases p.len(),
{
    if p.len() == 0 {
        assert((p + w8).subrange(0, 8) =~= w8);
        assert((p + w8).subrange(8, (p + w8).len() as int) =~= Seq::<u8>::empty());
        assert(words_of(Seq::<u8>::empty()) =~= Seq::<u64>::empty());
        assert(words_of(p) =~= Seq::<u64>::empty());
        assert(words_of(p + w8) =~= words_of(p) + seq![combine64(w8)]);
    } else {
        let rest = p.subrange(8, p.len() as int);
        lemma_words_of_snoc(rest, w8);
        assert((p + w8).subrange(0, 8) =~= p.subrange(0, 8));
        assert((p + w8).subrange(8, (p + w8).len() as int) =~= rest + w8);
        assert(words_of(p + w8) =~= words_of(p) + seq![combine64(w8)]);
    }
}

impl ConsoleType {
    /// Decodes a [`ConsoleType`] packet; on failure nothing is consumed.
    pub fn decode(data: &Vec<u8>, pos: usize) -> (r: Result<(ConsoleType, usize), DecodeError>)
        ensures
            spec_decode_console_type(data@, pos as int) matches Ok((v, end)) ==> r matches Ok((p, e2))
                && pv(Packet::ConsoleType(p)) == v && e2 == end,
            spec_decode_console_type(data@, pos as int) matches Err(er) ==> r matches Err(e2) && e2 == er,
            r matches Ok((p, e2)) ==> pos < e2 <= data@.len(),
    {
        match read_frame(data, pos, 0x0, 0x1) {
            Result::Err(e) => Result::Err(e),
            Result::Ok((ps, pe)) => {
                if pe - ps < 1 {
                    return Result::Err(DecodeError::WrongLength);
                }
                let v_console = match Console::from_value(data[ps]) {
                    Option::None => {
                        return Result::Err(DecodeError::InvalidEnum);
                    },
                    Option::Some(x) => x,
                };
                let raw_name = subvec(data, ps + 1, pe);
                match bytes_to_string(raw_name) {
                    Option::None => Result::Err(DecodeError::InvalidUtf8),
                    Option::Some(st) => Result::Ok((ConsoleType { console: v_console, name: st }, pe)),
                }
            },
        }
    }
}

impl ConsoleRegion {
    /// Decodes a [`ConsoleRegion`] packet; on failure nothing is consumed.
    pub fn decode(data: &Vec<u8>, pos: usize) -> (r: Result<(ConsoleRegion, usize), DecodeError>)
        ensures
            spec_decode_console_region_packet(data@, pos as int) matches Ok((v, end)) ==> r matches Ok((p, e2))
                && pv(Packet::ConsoleRegion(p)) == v && e2 == end,
            spec_decode_console_region_packet(data@, pos as int) matches Err(er) ==> r matches Err(e2) && e2 == er,
            r matches Ok((p, e2)) ==> pos < e2 <= data@.len(),
    {
        match read_frame(data, pos, 0x0, 0x2) {
            Result::Err(e) => Result::Err(e),
            Result::Ok((ps, pe)) => {
                if pe - ps != 1 {
                    return Result::Err(DecodeError::WrongLength);
                }
                let v_region = match ConsoleRegion::from_value(data[ps]) {
                    Option::None => {
                        return Result::Err(DecodeError::InvalidEnum);
                    },
                    Option::Some(x) => x,
                };
                Result::Ok((v_region, pe))
            },
        }
    }
}

impl GameTitle {
    /// Decodes a [`GameTitle`] packet; on failure nothing is consumed.
    pub fn decode(data: &Vec<u8>, pos: usize) -> (r: Result<(GameTitle, usize), DecodeError>)
        ensures
            spec_decode_game_title(data@, pos as int) matches Ok((v, end)) ==> r matches Ok((p, e2))
                && pv(Packet::GameTitle(p)) == v && e2 == end,
            spec_decode_game_title(data@, pos as int) matches Err(er) ==> r matches Err(e2) && e2 == er,
            r matches Ok((p, e2)) ==> pos < e2 <= data@.len(),
    {
        match read_frame(data, pos, 0x0, 0x3) {
            Result::Err(e) => Result::Err(e),
            Result::Ok((ps, pe)) => {
                let raw_title = subvec(data, ps, pe);
                match bytes_to_string(raw_title) {
                    Option::None => Result::Err(DecodeError::InvalidUtf8),
                    Option::Some(st) => Result::Ok((GameTitle { title: st }, pe)),
                }
            },
        }
    }
}

impl RomName {
    /// Decodes a [`RomName`] packet; on failure nothing is consumed.
    pub fn decode(data: &Vec<u8>, pos: usize) -> (r: Result<(RomName, usize), DecodeError>)
        ensures
            spec_decode_rom_name(data@, pos as int) matches Ok((v, end)) ==> r matches Ok((p, e2))
                && pv(Packet::RomName(p)) == v && e2 == end,
            spec_decode_rom_name(data@, pos as int) matches Err(er) ==> r matches Err(e2) && e2 == er,
            r matches Ok((p, e2)) ==> pos < e2 <= data@.len(),
    {
        match read_frame(data, pos, 0x0, 0x4) {
            Result::Err(e) => Result::Err(e),
            Result::Ok((ps, pe)) => {
                let raw_name = subvec(data, ps, pe);
                match bytes_to_string(raw_name) {
                    Option::None => Result::Err(DecodeError::InvalidUtf8),
                    Option::Some(st) => Result::Ok((RomName { name: st }, pe)),
                }
            },
        }
    }
}

impl Attribution {
    /// Decodes a [`Attribution`] packet; on failure nothing is consumed.
    pub fn decode(data: &Vec<u8>, pos: usize) -> (r: Result<(Attribution, usize), DecodeError>)
        ensures
            spec_decode_attribution(data@, pos as int) matches Ok((v, end)) ==> r matches Ok((p, e2))
                && pv(Packet::Attribution(p)) == v && e2 == end,
            spec_decode_attribution(data@, pos as int) matches Err(er) ==> r matches Err(e2) && e2 == er,
            r matches Ok((p, e2)) ==> pos < e2 <= data@.len(),
    {
        match read_frame(data, pos, 0x0, 0x5) {
            Result::Err(e) => Result::Err(e),
            Result::Ok((ps, pe)) => {
                if pe - ps < 1 {
                    return Result::Err(DecodeError::WrongLength);
                }
                let v_kind = match AttributionKind::from_value(data[ps]) {
                    Option::None => {
                        return Result::Err(DecodeError::InvalidEnum);
                    },
                    Option::Some(x) => x,
                };
                let raw_name = subvec(data, ps + 1, pe);
                match bytes_to_string(raw_name) {
                    Option::None => Result::Err(DecodeError::InvalidUtf8),
                    Option::Some(st) => Result::Ok((Attribution { kind: v_kind, name: st }, pe)),
                }
            },
        }
    }
}

impl Category {
    /// Decodes a [`Category`] packet; on failure nothing is consumed.
    pub fn decode(data: &Vec<u8>, pos: usize) -> (r: Result<(Category, usize), DecodeError>)
        ensures
            spec_decode_category(data@, pos as int) matches Ok((v, end)) ==> r matches Ok((p, e2))
                && pv(Packet::Category(p)) == v && e2 == end,
            spec_decode_category(data@, pos as int) matches Err(er) ==> r matches Err(e2) && e2 == er,
            r matches Ok((p, e2)) ==> pos < e2 <= data@.len(),
    {
        match read_frame(data, pos, 0x0, 0x6) {
            Result::Err(e) => Result::Err(e),
            Result::Ok((ps, pe)) => {
                let raw_category = subvec(data, ps, pe);
                match bytes_to_string(raw_category) {
                    Option::None => Result::Err(DecodeError::InvalidUtf8),
                    Option::Some(st) => Result::Ok((Category { category: st }, pe)),
                }
            },
        }
    }
}

impl EmulatorName {
    /// Decodes a [`EmulatorName`] packet; on failure nothing is consumed.
    pub fn decode(data: &Vec<u8>, pos: usize) -> (r: Result<(EmulatorName, usize), DecodeError>)
        ensures
            spec_decode_emulator_name(data@, pos as int) matches Ok((v, end)) ==> r matches Ok((p, e2))
                && pv(Packet::EmulatorName(p)) == v && e2 == end,
            spec_decode_emulator_name(data@, pos as int) matches Err(er) ==> r matches Err(e2) && e2 == er,
            r matches Ok((p, e2)) ==> pos < e2 <= data@.len(),
    {
        match read_frame(data, pos, 0x0, 0x7) {
            Result::Err(e) => Result::Err(e),
            Result::Ok((ps, pe)) => {
                let raw_name = subvec(data, ps, pe);
                match bytes_to_string(raw_name) {
                    Option::None => Result::Err(DecodeError::InvalidUtf8),
                    Option::Some(st) => Result::Ok((EmulatorName { name: st }, pe)),
                }
            },
        }
    }
}

impl EmulatorVersion {
    /// Decodes a [`EmulatorVersion`] packet; on failure nothing is consumed.
    pub fn decode(data: &Vec<u8>, pos: usize) -> (r: Result<(EmulatorVersion, usize), DecodeError>)
        ensures
            spec_decode_emulator_version(data@, pos as int) matches Ok((v, end)) ==> r matches Ok((p, e2))
                && pv(Packet::EmulatorVersion(p)) == v && e2 == end,
            spec_decode_emulator_version(data@, pos as int) matches Err(er) ==> r matches Err(e2) && e2 == er,
            r matches Ok((p, e2)) ==> pos < e2 <= data@.len(),
    {
        match read_frame(data, pos, 0x0, 0x8) {
            Result::Err(e) => Result::Err(e),
            Result::Ok((ps, pe)) => {
                let raw_version = subvec(data, ps, pe);
                match bytes_to_string(raw_version) {
                    Option::None => Result::Err(DecodeError::InvalidUtf8),
                    Option::Some(st) => Result::Ok((EmulatorVersion { version: st }, pe)),
                }
            },
        }
    }
}

impl EmulatorCore {
    /// Decodes a [`EmulatorCore`] packet; on failure nothing is consumed.
    pub fn decode(data: &Vec<u8>, pos: usize) -> (r: Result<(EmulatorCore, usize), DecodeError>)
        ensures
            spec_decode_emulator_core(data@, pos as int) matches Ok((v, end)) ==> r matches Ok((p, e2))
                && pv(Packet::EmulatorCore(p)) == v && e2 == end,
            spec_decode_emulator_core(data@, pos as int) matches Err(er) ==> r matches Err(e2) && e2 == er,
            r matches Ok((p, e2)) ==> pos < e2 <= data@.len(),
    {
        match read_frame(data, pos, 0x0, 0x9) {
            Result::Err(e) => Result::Err(e),
            Result::Ok((ps, pe)) => {
                let raw_core = subvec(data, ps, pe);
                match bytes_to_string(raw_core) {
                    Option::None => Result::Err(DecodeError::InvalidUtf8),
                    Option::Some(st) => Result::Ok((EmulatorCore { core: st }, pe)),
                }
            },
        }
    }
}

impl TasLastModified {
    /// Decodes a [`TasLastModified`] packet; on failure nothing is consumed.
    pub fn decode(data: &Vec<u8>, pos: usize) -> (r: Result<(TasLastModified, usize), DecodeError>)
        ensures
            spec_decode_tas_last_modified(data@, pos as int) matches Ok((v, end)) ==> r matches Ok((p, e2))
                && pv(Packet::TasLastModified(p)) == v && e2 == end,
            spec_decode_tas_last_modified(data@, pos as int) matches Err(er) ==> r matches Err(e2) && e2 == er,
            r matches Ok((p, e2)) ==> pos < e2 <= data@.len(),
    {
        match read_frame(data, pos, 0x0, 0xa) {
            Result::Err(e) => Result::Err(e),
            Result::Ok((ps, pe)) => {
                if pe - ps != 8 {
                    return Result::Err(DecodeError::WrongLength);
                }
                let v_timestamp = i64_from_bits(get64(data, ps));
                Result::Ok((TasLastModified { timestamp: v_timestamp }, pe))
            },
        }
    }
}

impl DumpCreated {
    /// Decodes a [`DumpCreated`] packet; on failure nothing is consumed.
    pub fn decode(data: &Vec<u8>, pos: usize) -> (r: Result<(DumpCreated, usize), DecodeError>)
        ensures
            spec_decode_dump_created(data@, pos as int) matches Ok((v, end)) ==> r matches Ok((p, e2))
                && pv(Packet::DumpCreated(p)) == v && e2 == end,
            spec_decode_dump_created(data@, pos as int) matches Err(er) ==> r matches Err(e2) && e2 == er,
            r matches Ok((p, e2)) ==> pos < e2 <= data@.len(),
    {
        match read_frame(data, pos, 0x0, 0xb) {
            Result::Err(e) => Result::Err(e),
            Result::Ok((ps, pe)) => {
                if pe - ps != 8 {
                    return Result::Err(DecodeError::WrongLength);
                }
                let v_timestamp = i64_from_bits(get64(data, ps));
                Result::Ok((DumpCreated { timestamp: v_timestamp }, pe))
            },
        }
    }
}

impl DumpLastModified {
    /// Decodes a [`DumpLastModified`] packet; on failure nothing is consumed.
    pub fn decode(data: &Vec<u8>, pos: usize) -> (r: Result<(DumpLastModified, usize), DecodeError>)
        ensures
            spec_decode_dump_last_modified(data@, pos as int) matches Ok((v, end)) ==> r matches Ok((p, e2))
                && pv(Packet::DumpLastModified(p)) == v && e2 == end,
            spec_decode_dump_last_modified(data@, pos as int) matches Err(er) ==> r matches Err(e2) && e2 == er,
            r matches Ok((p, e2)) ==> pos < e2 <= data@.len(),
    {
        match read_frame(data, pos, 0x0, 0xc) {
            Result::Err(e) => Result::Err(e),
            Result::Ok((ps, pe)) => {
                if pe - ps != 8 {
                    return Result::Err(DecodeError::WrongLength);
                }
                let v_timestamp = i64_from_bits(get64(data, ps));
                Result::Ok((DumpLastModified { timestamp: v_timestamp }, pe))
            },
        }
    }
}

impl TotalFrames {
    /// Decodes a [`TotalFrames`] packet; on failure nothing is consumed.
    pub fn decode(data: &Vec<u8>, pos: usize) -> (r: Result<(TotalFrames, usize), DecodeError>)
        ensures
            spec_decode_total_frames(data@, pos as int) matches Ok((v, end)) ==> r matches Ok((p, e2))
                && pv(Packet::TotalFrames(p)) == v && e2 == end,
            spec_decode_total_frames(data@, pos as int) matches Err(er) ==> r matches Err(e2) && e2 == er,
            r matches Ok((p, e2)) ==> pos < e2 <= data@.len(),
    {
        match read_frame(data, pos, 0x0, 0xd) {
            Result::Err(e) => Result::Err(e),
            Result::Ok((ps, pe)) => {
                if pe - ps != 4 {
                    return Result::Err(DecodeError::WrongLength);
                }
                let v_frames = get32(data, ps);
                Result::Ok((TotalFrames { frames: v_frames }, pe))
            },
        }
    }
}

impl Rerecords {
    /// Decodes a [`Rerecords`] packet; on failure nothing is consumed.
    pub fn decode(data: &Vec<u8>, pos: usize) -> (r: Result<(Rerecords, usize), DecodeError>)
        ensures
            spec_decode_rerecords(data@, pos as int) matches Ok((v, end)) ==> r matches Ok((p, e2))
                && pv(Packet::Rerecords(p)) == v && e2 == end,
            spec_decode_rerecords(data@, pos as int) matches Err(er) ==> r matches Err(e2) && e2 == er,
            r matches Ok((p, e2)) ==> pos < e2 <= data@.len(),
    {
        match read_frame(data, pos, 0x0, 0xe) {
            Result::Err(e) => Result::Err(e),
            Result::Ok((ps, pe)) => {
                if pe - ps != 4 {
                    return Result::Err(DecodeError::WrongLength);
                }
                let v_rerecords = get32(data, ps);
                Result::Ok((Rerecords { rerecords: v_rerecords }, pe))
            },
        }
    }
}

impl SourceLink {
    /// Decodes a [`SourceLink`] packet; on failure nothing is consumed.
    pub fn decode(data: &Vec<u8>, pos: usize) -> (r: Result<(SourceLink, usize), DecodeError>)
        ensures
            spec_decode_source_link(data@, pos as int) matches Ok((v, end)) ==> r matches Ok((p, e2))
                && pv(Packet::SourceLink(p)) == v && e2 == end,
            spec_decode_source_link(data@, pos as int) matches Err(er) ==> r matches Err(e2) && e2 == er,
            r matches Ok((p, e2)) ==> pos < e2 <= data@.len(),
    {
        match read_frame(data, pos, 0x0, 0xf) {
            Result::Err(e) => Result::Err(e),
            Result::Ok((ps, pe)) => {
                let raw_link = subvec(data, ps, pe);
                match bytes_to_string(raw_link) {
                    Option::None => Result::Err(DecodeError::InvalidUtf8),
                    Option::Some(st) => Result::Ok((SourceLink { link: st }, pe)),
                }
            },
        }
    }
}

impl BlankFrames {
    /// Decodes a [`BlankFrames`] packet; on failure nothing is consumed.
    pub fn decode(data: &Vec<u8>, pos: usize) -> (r: Result<(BlankFrames, usize), DecodeError>)
        ensures
            spec_decode_blank_frames(data@, pos as int) matches Ok((v, end)) ==> r matches Ok((p, e2))
                && pv(Packet::BlankFrames(p)) == v && e2 == end,
            spec_decode_blank_frames(data@, pos as int) matches Err(er) ==> r matches Err(e2) && e2 == er,
            r matches Ok((p, e2)) ==> pos < e2 <= data@.len(),
    {
        match read_frame(data, pos, 0x0, 0x10) {
            Result::Err(e) => Result::Err(e),
            Result::Ok((ps, pe)) => {
                if pe - ps != 2 {
                    return Result::Err(DecodeError::WrongLength);
                }
                let v_frames = i16_from_bits(get16(data, ps));
                Result::Ok((BlankFrames { frames: v_frames }, pe))
            },
        }
    }
}

impl Verified {
    /// Decodes a [`Verified`] packet; on failure nothing is consumed.
    pub fn decode(data: &Vec<u8>, pos: usize) -> (r: Result<(Verified, usize), DecodeError>)
        ensures
            spec_decode_verified(data@, pos as int) matches Ok((v, end)) ==> r matches Ok((p, e2))
                && pv(Packet::Verified(p)) == v && e2 == end,
            spec_decode_verified(data@, pos as int) matches Err(er) ==> r matches Err(e2) && e2 == er,
            r matches Ok((p, e2)) ==> pos < e2 <= data@.len(),
    {
        match read_frame(data, pos, 0x0, 0x11) {
            Result::Err(e) => Result::Err(e),
            Result::Ok((ps, pe)) => {
                if pe - ps != 1 {
                    return Result::Err(DecodeError::WrongLength);
                }
                let b_verified = data[ps];
                if b_verified > 1 {
                    return Result::Err(DecodeError::InvalidBool);
                }
                let v_verified = b_verified == 1;
                Result::Ok((Verified { verified: v_verified }, pe))
            },
        }
    }
}

impl MovieLicense {
    /// Decodes a [`MovieLicense`] packet; on failure nothing is consumed.
    pub fn decode(data: &Vec<u8>, pos: usize) -> (r: Result<(MovieLicense, usize), DecodeError>)
        ensures
            spec_decode_movie_license(data@, pos as int) matches Ok((v, end)) ==> r matches Ok((p, e2))
                && pv(Packet::MovieLicense(p)) == v && e2 == end,
            spec_decode_movie_license(data@, pos as int) matches Err(er) ==> r matches Err(e2) && e2 == er,
            r matches Ok((p, e2)) ==> pos < e2 <= data@.len(),
    {
        match read_frame(data, pos, 0x0, 0x14) {
            Result::Err(e) => Result::Err(e),
            Result::Ok((ps, pe)) => {
                let raw_license = subvec(data, ps, pe);
                match bytes_to_string(raw_license) {
                    Option::None => Result::Err(DecodeError::InvalidUtf8),
                    Option::Some(st) => Result::Ok((MovieLicense { license: st }, pe)),
                }
            },
        }
    }
}

impl PortController {
    /// Decodes a [`PortController`] packet; on failure nothing is consumed.
    pub fn decode(data: &Vec<u8>, pos: usize) -> (r: Result<(PortController, usize), DecodeError>)
        ensures
            spec_decode_port_controller(data@, pos as int) matches Ok((v, end)) ==> r matches Ok((p, e2))
                && pv(Packet::PortController(p)) == v && e2 == end,
            spec_decode_port_controller(data@, pos as int) matches Err(er) ==> r matches Err(e2) && e2 == er,
            r matches Ok((p, e2)) ==> pos < e2 <= data@.len(),
    {
        match read_frame(data, pos, 0x0, 0xf0) {
            Result::Err(e) => Result::Err(e),
            Result::Ok((ps, pe)) => {
                if pe - ps != 3 {
                    return Result::Err(DecodeError::WrongLength);
                }
                let v_port = data[ps];
                let v_kind = match PortKind::from_value(get16(data, ps + 1)) {
                    Option::None => {
                        return Result::Err(DecodeError::InvalidEnum);
                    },
                    Option::Some(x) => x,
                };
                Result::Ok((PortController { port: v_port, kind: v_kind }, pe))
            },
        }
    }
}

impl PortOverread {
    /// Decodes a [`PortOverread`] packet; on failure nothing is consumed.
    pub fn decode(data: &Vec<u8>, pos: usize) -> (r: Result<(PortOverread, usize), DecodeError>)
        ensures
            spec_decode_port_overread(data@, pos as int) matches Ok((v, end)) ==> r matches Ok((p, e2))
                && pv(Packet::PortOverread(p)) == v && e2 == end,
            spec_decode_port_overread(data@, pos as int) matches Err(er) ==> r matches Err(e2) && e2 == er,
            r matches Ok((p, e2)) ==> pos < e2 <= data@.len(),
    {
        match read_frame(data, pos, 0x0, 0xf1) {
            Result::Err(e) => Result::Err(e),
            Result::Ok((ps, pe)) => {
                if pe - ps != 2 {
                    return Result::Err(DecodeError::WrongLength);
                }
                let v_port = data[ps];
                let b_high = data[ps + 1];
                if b_high > 1 {
                    return Result::Err(DecodeError::InvalidBool);
                }
                let v_high = b_high == 1;
                Result::Ok((PortOverread { port: v_port, high: v_high }, pe))
            },
        }
    }
}

impl NesLatchFilter {
    /// Decodes a [`NesLatchFilter`] packet; on failure nothing is consumed.
    pub fn decode(data: &Vec<u8>, pos: usize) -> (r: Result<(NesLatchFilter, usize), DecodeError>)
        ensures
            spec_decode_nes_latch_filter(data@, pos as int) matches Ok((v, end)) ==> r matches Ok((p, e2))
                && pv(Packet::NesLatchFilter(p)) == v && e2 == end,
            spec_decode_nes_latch_filter(data@, pos as int) matches Err(er) ==> r matches Err(e2) && e2 == er,
            r matches Ok((p, e2)) ==> pos < e2 <= data@.len(),
    {
        match read_frame(data, pos, 0x1, 0x1) {
            Result::Err(e) => Result::Err(e),
            Result::Ok((ps, pe)) => {
                if pe - ps != 2 {
                    return Result::Err(DecodeError::WrongLength);
                }
                let v_time = get16(data, ps);
                Result::Ok((NesLatchFilter { time: v_time }, pe))
            },
        }
    }
}

impl NesClockFilter {
    /// Decodes a [`NesClockFilter`] packet; on failure nothing is consumed.
    pub fn decode(data: &Vec<u8>, pos: usize) -> (r: Result<(NesClockFilter, usize), DecodeError>)
        ensures
            spec_decode_nes_clock_filter(data@, pos as int) matches Ok((v, end)) ==> r matches Ok((p, e2))
                && pv(Packet::NesClockFilter(p)) == v && e2 == end,
            spec_decode_nes_clock_filter(data@, pos as int) matches Err(er) ==> r matches Err(e2) && e2 == er,
            r matches Ok((p, e2)) ==> pos < e2 <= data@.len(),
    {
        match read_frame(data, pos, 0x1, 0x2) {
            Result::Err(e) => Result::Err(e),
            Result::Ok((ps, pe)) => {
                if pe - ps != 1 {
                    return Result::Err(DecodeError::WrongLength);
                }
                let v_time = data[ps];
                Result::Ok((NesClockFilter { time: v_time }, pe))
            },
        }
    }
}

impl NesGameGenieCode {
    /// Decodes a [`NesGameGenieCode`] packet; on failure nothing is consumed.
    pub fn decode(data: &Vec<u8>, pos: usize) -> (r: Result<(NesGameGenieCode, usize), DecodeError>)
        ensures
            spec_decode_nes_game_genie_code(data@, pos as int) matches Ok((v, end)) ==> r matches Ok((p, e2))
                && pv(Packet::NesGameGenieCode(p)) == v && e2 == end,
            spec_decode_nes_game_genie_code(data@, pos as int) matches Err(er) ==> r matches Err(e2) && e2 == er,
            r matches Ok((p, e2)) ==> pos < e2 <= data@.len(),
    {
        match read_frame(data, pos, 0x1, 0x4) {
            Result::Err(e) => Result::Err(e),
            Result::Ok((ps, pe)) => {
                let raw_code = subvec(data, ps, pe);
                match bytes_to_string(raw_code) {
                    Option::None => Result::Err(DecodeError::InvalidUtf8),
                    Option::Some(st) => Result::Ok((NesGameGenieCode { code: st }, pe)),
                }
            },
        }
    }
}

impl SnesLatchFilter {
    /// Decodes a [`SnesLatchFilter`] packet; on failure nothing is consumed.
    pub fn decode(data: &Vec<u8>, pos: usize) -> (r: Result<(SnesLatchFilter, usize), DecodeError>)
        ensures
            spec_decode_snes_latch_filter(data@, pos as int) matches Ok((v, end)) ==> r matches Ok((p, e2))
                && pv(Packet::SnesLatchFilter(p)) == v && e2 == end,
            spec_decode_snes_latch_filter(data@, pos as int) matches Err(er) ==> r matches Err(e2) && e2 == er,
            r matches Ok((p, e2)) ==> pos < e2 <= data@.len(),
    {
        match read_frame(data, pos, 0x2, 0x1) {
            Result::Err(e) => Result::Err(e),
            Result::Ok((ps, pe)) => {
                if pe - ps != 2 {
                    return Result::Err(DecodeError::WrongLength);
                }
                let v_time = get16(data, ps);
                Result::Ok((SnesLatchFilter { time: v_time }, pe))
            },
        }
    }
}

impl SnesClockFilter {
    /// Decodes a [`SnesClockFilter`] packet; on failure nothing is consumed.
    pub fn decode(data: &Vec<u8>, pos: usize) -> (r: Result<(SnesClockFilter, usize), DecodeError>)
        ensures
            spec_decode_snes_clock_filter(data@, pos as int) matches Ok((v, end)) ==> r matches Ok((p, e2))
                && pv(Packet::SnesClockFilter(p)) == v && e2 == end,
            spec_decode_snes_clock_filter(data@, pos as int) matches Err(er) ==> r matches Err(e2) && e2 == er,
            r matches Ok((p, e2)) ==> pos < e2 <= data@.len(),
    {
        match read_frame(data, pos, 0x2, 0x2) {
            Result::Err(e) => Result::Err(e),
            Result::Ok((ps, pe)) => {
                if pe - ps != 1 {
                    return Result::Err(DecodeError::WrongLength);
                }
                let v_time = data[ps];
                Result::Ok((SnesClockFilter { time: v_time }, pe))
            },
        }
    }
}

impl SnesGameGenieCode {
    /// Decodes a [`SnesGameGenieCode`] packet; on failure nothing is consumed.
    pub fn decode(data: &Vec<u8>, pos: usize) -> (r: Result<(SnesGameGenieCode, usize), DecodeError>)
        ensures
            spec_decode_snes_game_genie_code(data@, pos as int) matches Ok((v, end)) ==> r matches Ok((p, e2))
                && pv(Packet::SnesGameGenieCode(p)) == v && e2 == end,
            spec_decode_snes_game_genie_code(data@, pos as int) matches Err(er) ==> r matches Err(e2) && e2 == er,
            r matches Ok((p, e2)) ==> pos < e2 <= data@.len(),
    {
        match read_frame(data, pos, 0x2, 0x4) {
            Result::Err(e) => Result::Err(e),
            Result::Ok((ps, pe)) => {
                let raw_code = subvec(data, ps, pe);
                match bytes_to_string(raw_code) {
                    Option::None => Result::Err(DecodeError::InvalidUtf8),
                    Option::Some(st) => Result::Ok((SnesGameGenieCode { code: st }, pe)),
                }
            },
        }
    }
}

impl SnesLatchTrain {
    /// Decodes a [`SnesLatchTrain`] packet; on failure nothing is consumed.
    pub fn decode(data: &Vec<u8>, pos: usize) -> (r: Result<(SnesLatchTrain, usize), DecodeError>)
        ensures
            spec_decode_snes_latch_train(data@, pos as int) matches Ok((v, end)) ==> r matches Ok((p, e2))
                && pv(Packet::SnesLatchTrain(p)) == v && e2 == end,
            spec_decode_snes_latch_train(data@, pos as int) matches Err(er) ==> r matches Err(e2) && e2 == er,
            r matches Ok((p, e2)) ==> pos < e2 <= data@.len(),
    {
        match read_frame(data, pos, 0x2, 0x5) {
            Result::Err(e) => Result::Err(e),
            Result::Ok((ps, pe)) => {
                if (pe - ps) % 8 != 0 {
                    return Result::Err(DecodeError::WrongLength);
                }
                let v_latch_trains = read_words(data, ps, pe);
                Result::Ok((SnesLatchTrain { latch_trains: v_latch_trains }, pe))
            },
        }
    }
}

impl GenesisGameGenieCode {
    /// Decodes a [`GenesisGameGenieCode`] packet; on failure nothing is consumed.
    pub fn decode(data: &Vec<u8>, pos: usize) -> (r: Result<(GenesisGameGenieCode, usize), DecodeError>)
        ensures
            spec_decode_genesis_game_genie_code(data@, pos as int) matches Ok((v, end)) ==> r matches Ok((p, e2))
                && pv(Packet::GenesisGameGenieCode(p)) == v && e2 == end,
            spec_decode_genesis_game_genie_code(data@, pos as int) matches Err(er) ==> r matches Err(e2) && e2 == er,
            r matches Ok((p, e2)) ==> pos < e2 <= data@.len(),
    {
        match read_frame(data, pos, 0x8, 0x4) {
            Result::Err(e) => Result::Err(e),
            Result::Ok((ps, pe)) => {
                let raw_code = subvec(data, ps, pe);
                match bytes_to_string(raw_code) {
                    Option::None => Result::Err(DecodeError::InvalidUtf8),
                    Option::Some(st) => Result::Ok((GenesisGameGenieCode { code: st }, pe)),
                }
            },
        }
    }
}

impl InputChunk {
    /// Decodes a [`InputChunk`] packet; on failure nothing is consumed.
    pub fn decode(data: &Vec<u8>, pos: usize) -> (r: Result<(InputChunk, usize), DecodeError>)
        ensures
            spec_decode_input_chunk(data@, pos as int) matches Ok((v, end)) ==> r matches Ok((p, e2))
                && pv(Packet::InputChunk(p)) == v && e2 == end,
            spec_decode_input_chunk(data@, pos as int) matches Err(er) ==> r matches Err(e2) && e2 == er,
            r matches Ok((p, e2)) ==> pos < e2 <= data@.len(),
    {
        match read_frame(data, pos, 0xfe, 0x1) {
            Result::Err(e) => Result::Err(e),
            Result::Ok((ps, pe)) => {
                if pe - ps < 1 {
                    return Result::Err(DecodeError::WrongLength);
                }
                let v_port = data[ps];
                let v_inputs = subvec(data, ps + 1, pe);
                Result::Ok((InputChunk { port: v_port, inputs: v_inputs }, pe))
            },
        }
    }
}

impl InputMoment {
    /// Decodes a [`InputMoment`] packet; on failure nothing is consumed.
    pub fn decode(data: &Vec<u8>, pos: usize) -> (r: Result<(InputMoment, usize), DecodeError>)
        ensures
            spec_decode_input_moment(data@, pos as int) matches Ok((v, end)) ==> r matches Ok((p, e2))
                && pv(Packet::InputMoment(p)) == v && e2 == end,
            spec_decode_input_moment(data@, pos as int) matches Err(er) ==> r matches Err(e2) && e2 == er,
            r matches Ok((p, e2)) ==> pos < e2 <= data@.len(),
    {
        match read_frame(data, pos, 0xfe, 0x2) {
            Result::Err(e) => Result::Err(e),
            Result::Ok((ps, pe)) => {
                if pe - ps < 11 {
                    return Result::Err(DecodeError::WrongLength);
                }
                let v_port = data[ps];
                let b_hold = data[ps + 1];
                if b_hold > 1 {
                    return Result::Err(DecodeError::InvalidBool);
                }
                let v_hold = b_hold == 1;
                let v_index_type = match MomentIndexKind::from_value(data[ps + 2]) {
                    Option::None => {
                        return Result::Err(DecodeError::InvalidEnum);
                    },
                    Option::Some(x) => x,
                };
                let v_index = get64(data, ps + 3);
                let v_inputs = subvec(data, ps + 11, pe);
                Result::Ok((InputMoment { port: v_port, hold: v_hold, index_type: v_index_type, index: v_index, inputs: v_inputs }, pe))
            },
        }
    }
}

impl Transition {
    /// Decodes a [`Transition`] packet; on failure nothing is consumed.
    fn decode_depth(data: &Vec<u8>, pos: usize, depth: usize) -> (r: Result<(Transition, usize), DecodeError>)
    requires
        depth <= MAX_PACKET_DEPTH,
        ensures
            spec_decode_transition(data@, pos as int, depth as nat) matches Ok((v, end)) ==> r matches Ok((p, e2))
                && pv(Packet::Transition(p)) == v && e2 == end,
            spec_decode_transition(data@, pos as int, depth as nat) matches Err(er) ==> r matches Err(e2) && e2 == er,
            r matches Ok((p, e2)) ==> pos < e2 <= data@.len(),
        decreases MAX_PACKET_DEPTH - depth, 0int,
    {
        match read_frame(data, pos, 0xfe, 0x3) {
            Result::Err(e) => Result::Err(e),
            Result::Ok((ps, pe)) => {
                if pe - ps < 11 {
                    return Result::Err(DecodeError::WrongLength);
                }
                let v_port = data[ps];
                let v_index_type = match TransitionIndexKind::from_value(data[ps + 1]) {
                    Option::None => {
                        return Result::Err(DecodeError::InvalidEnum);
                    },
                    Option::Some(x) => x,
                };
                let v_index = get64(data, ps + 2);
                let v_transition_type = match TransitionKind::from_value(data[ps + 10]) {
                    Option::None => {
                        return Result::Err(DecodeError::InvalidEnum);
                    },
                    Option::Some(x) => x,
                };
                if pe - ps == 11 {
                    return Result::Ok((Transition { port: v_port, index_type: v_index_type, index: v_index, transition_type: v_transition_type, inner_packet: Option::None }, pe));
                }
                if depth >= MAX_PACKET_DEPTH {
                    return Result::Err(DecodeError::NestingLimit);
                }
                match Packet::decode_depth(data, ps + 11, depth + 1) {
                    Result::Err(e) => Result::Err(e),
                    Result::Ok((iv, end)) => {
                        if end == pe {
                            Result::Ok((Transition { port: v_port, index_type: v_index_type, index: v_index, transition_type: v_transition_type, inner_packet: Option::Some(Box::new(iv)) }, pe))
                        } else {
                            Result::Err(DecodeError::WrongLength)
                        }
                    },
                }
            },
        }
    }
}

impl Transition {
    /// Decodes a [`Transition`] packet at the outermost nesting level.
    pub fn decode(data: &Vec<u8>, pos: usize) -> (r: Result<(Transition, usize), DecodeError>)
        ensures
            spec_decode_transition(data@, pos as int, 0) matches Ok((v, end)) ==> r matches Ok((p, e2))
                && pv(Packet::Transition(p)) == v && e2 == end,
            spec_decode_transition(data@, pos as int, 0) matches Err(er) ==> r matches Err(e2) && e2 == er,
            r matches Ok((p, e2)) ==> pos < e2 <= data@.len(),
    {
        Self::decode_depth(data, pos, 0)
    }
}

impl LagFrameChunk {
    /// Decodes a [`LagFrameChunk`] packet; on failure nothing is consumed.
    pub fn decode(data: &Vec<u8>, pos: usize) -> (r: Result<(LagFrameChunk, usize), DecodeError>)
        ensures
            spec_decode_lag_frame_chunk(data@, pos as int) matches Ok((v, end)) ==> r matches Ok((p, e2))
                && pv(Packet::LagFrameChunk(p)) == v && e2 == end,
            spec_decode_lag_frame_chunk(data@, pos as int) matches Err(er) ==> r matches Err(e2) && e2 == er,
            r matches Ok((p, e2)) ==> pos < e2 <= data@.len(),
    {
        match read_frame(data, pos, 0xfe, 0x4) {
            Result::Err(e) => Result::Err(e),
            Result::Ok((ps, pe)) => {
                if pe - ps != 8 {
                    return Result::Err(DecodeError::WrongLength);
                }
                let v_movie_frame = get32(data, ps);
                let v_count = get32(data, ps + 4);
                Result::Ok((LagFrameChunk { movie_frame: v_movie_frame, count: v_count }, pe))
            },
        }
    }
}

impl MovieTransition {
    /// Decodes a [`MovieTransition`] packet; on failure nothing is consumed.
    fn decode_depth(data: &Vec<u8>, pos: usize, depth: usize) -> (r: Result<(MovieTransition, usize), DecodeError>)
    requires
        depth <= MAX_PACKET_DEPTH,
        ensures
            spec_decode_movie_transition(data@, pos as int, depth as nat) matches Ok((v, end)) ==> r matches Ok((p, e2))
                && pv(Packet::MovieTransition(p)) == v && e2 == end,
            spec_decode_movie_transition(data@, pos as int, depth as nat) matches Err(er) ==> r matches Err(e2) && e2 == er,
            r matches Ok((p, e2)) ==> pos < e2 <= data@.len(),
        decreases MAX_PACKET_DEPTH - depth, 0int,
    {
        match read_frame(data, pos, 0xfe, 0x5) {
            Result::Err(e) => Result::Err(e),
            Result::Ok((ps, pe)) => {
                if pe - ps < 5 {
                    return Result::Err(DecodeError::WrongLength);
                }
                let v_movie_frame = get32(data, ps);
                let v_transition_type = match TransitionKind::from_value(data[ps + 4]) {
                    Option::None => {
                        return Result::Err(DecodeError::InvalidEnum);
                    },
                    Option::Some(x) => x,
                };
                if pe - ps == 5 {
                    return Result::Ok((MovieTransition { movie_frame: v_movie_frame, transition_type: v_transition_type, inner_packet: Option::None }, pe));
                }
                if depth >= MAX_PACKET_DEPTH {
                    return Result::Err(DecodeError::NestingLimit);
                }
                match Packet::decode_depth(data, ps + 5, depth + 1) {
                    Result::Err(e) => Result::Err(e),
                    Result::Ok((iv, end)) => {
                        if end == pe {
                            Result::Ok((MovieTransition { movie_frame: v_movie_frame, transition_type: v_transition_type, inner_packet: Option::Some(Box::new(iv)) }, pe))
                        } else {
                            Result::Err(DecodeError::WrongLength)
                        }
                    },
                }
            },
        }
    }
}

impl MovieTransition {
    /// Decodes a [`MovieTransition`] packet at the outermost nesting level.
    pub fn decode(data: &Vec<u8>, pos: usize) -> (r: Result<(MovieTransition, usize), DecodeError>)
        ensures
            spec_decode_movie_transition(data@, pos as int, 0) matches Ok((v, end)) ==> r matches Ok((p, e2))
                && pv(Packet::MovieTransition(p)) == v && e2 == end,
            spec_decode_movie_transition(data@, pos as int, 0) matches Err(er) ==> r matches Err(e2) && e2 == er,
            r matches Ok((p, e2)) ==> pos < e2 <= data@.len(),
    {
        Self::decode_depth(data, pos, 0)
    }
}

impl Comment {
    /// Decodes a [`Comment`] packet; on failure nothing is consumed.
    pub fn decode(data: &Vec<u8>, pos: usize) -> (r: Result<(Comment, usize), DecodeError>)
        ensures
            spec_decode_comment(data@, pos as int) matches Ok((v, end)) ==> r matches Ok((p, e2))
                && pv(Packet::Comment(p)) == v && e2 == end,
            spec_decode_comment(data@, pos as int) matches Err(er) ==> r matches Err(e2) && e2 == er,
            r matches Ok((p, e2)) ==> pos < e2 <= data@.len(),
    {
        match read_frame(data, pos, 0xff, 0x1) {
            Result::Err(e) => Result::Err(e),
            Result::Ok((ps, pe)) => {
                let raw_comment = subvec(data, ps, pe);
                match bytes_to_string(raw_comment) {
                    Option::None => Result::Err(DecodeError::InvalidUtf8),
                    Option::Some(st) => Result::Ok((Comment { comment: st }, pe)),
                }
            },
        }
    }
}

impl Experimental {
    /// Decodes a [`Experimental`] packet; on failure nothing is consumed.
    pub fn decode(data: &Vec<u8>, pos: usize) -> (r: Result<(Experimental, usize), DecodeError>)
        ensures
            spec_decode_experimental(data@, pos as int) matches Ok((v, end)) ==> r matches Ok((p, e2))
                && pv(Packet::Experimental(p)) == v && e2 == end,
            spec_decode_experimental(data@, pos as int) matches Err(er) ==> r matches Err(e2) && e2 == er,
            r matches Ok((p, e2)) ==> pos < e2 <= data@.len(),
    {
        match read_frame(data, pos, 0xff, 0xfe) {
            Result::Err(e) => Result::Err(e),
            Result::Ok((ps, pe)) => {
                if pe - ps != 1 {
                    return Result::Err(DecodeError::WrongLength);
                }
                let b_experimental = data[ps];
                if b_experimental > 1 {
                    return Result::Err(DecodeError::InvalidBool);
                }
                let v_experimental = b_experimental == 1;
                Result::Ok((Experimental { experimental: v_experimental }, pe))
            },
        }
    }
}

impl Unspecified {
    /// Decodes a [`Unspecified`] packet; on failure nothing is consumed.
    pub fn decode(data: &Vec<u8>, pos: usize) -> (r: Result<(Unspecified, usize), DecodeError>)
        ensures
            spec_decode_unspecified(data@, pos as int) matches Ok((v, end)) ==> r matches Ok((p, e2))
                && pv(Packet::Unspecified(p)) == v && e2 == end,
            spec_decode_unspecified(data@, pos as int) matches Err(er) ==> r matches Err(e2) && e2 == er,
            r matches Ok((p, e2)) ==> pos < e2 <= data@.len(),
    {
        match read_frame(data, pos, 0xff, 0xff) {
            Result::Err(e) => Result::Err(e),
            Result::Ok((ps, pe)) => {
                let v_data = subvec(data, ps, pe);
                Result::Ok((Unspecified { data: v_data }, pe))
            },
        }
    }
}

impl MemoryInit {
    /// Decodes a [`MemoryInit`] packet; on failure nothing is consumed.
    pub fn decode(data: &Vec<u8>, pos: usize) -> (r: Result<(MemoryInit, usize), DecodeError>)
        ensures
            spec_decode_memory_init(data@, pos as int) matches Ok((v, end)) ==> r matches Ok(
                (p, e2),
            ) && pv(Packet::MemoryInit(p)) == v && e2 == end,
            spec_decode_memory_init(data@, pos as int) matches Err(er) ==> r matches Err(e2) && e2
                == er,
            r matches Ok((p, e2)) ==> pos < e2 <= data@.len(),
    {
        match read_frame(data, pos, 0x00, 0x12) {
            Result::Err(e) => Result::Err(e),
            Result::Ok((ps, pe)) => {
                if pe - ps < 5 {
                    return Result::Err(DecodeError::WrongLength);
                }
                let v_data_type = match InitKind::from_value(data[ps]) {
                    Option::None => {
                        return Result::Err(DecodeError::InvalidEnum);
                    },
                    Option::Some(x) => x,
                };
                let v_device = match InitDevice::from_value(get16(data, ps + 1)) {
                    Option::None => {
                        return Result::Err(DecodeError::InvalidEnum);
                    },
                    Option::Some(x) => x,
                };
                let b_required = data[ps + 3];
                if b_required > 1 {
                    return Result::Err(DecodeError::InvalidBool);
                }
                let v_required = b_required == 1;
                let l = data[ps + 4] as usize;
                if l > pe - (ps + 5) {
                    return Result::Err(DecodeError::WrongLength);
                }
                let raw_name = subvec(data, ps + 5, ps + 5 + l);
                match bytes_to_string(raw_name) {
                    Option::None => Result::Err(DecodeError::InvalidUtf8),
                    Option::Some(st) => {
                        let v_data = subvec(data, ps + 5 + l, pe);
                        Result::Ok(
                            (
                                MemoryInit {
                                    data_type: v_data_type,
                                    device: v_device,
                                    required: v_required,
                                    name: st,
                                    data: v_data,
                                },
                                pe,
                            ),
                        )
                    },
                }
            },
        }
    }
}

impl GameIdentifier {
    /// Decodes a [`GameIdentifier`] packet; on failure nothing is consumed.
    pub fn decode(data: &Vec<u8>, pos: usize) -> (r: Result<(GameIdentifier, usize), DecodeError>)
        ensures
            spec_decode_game_identifier(data@, pos as int) matches Ok((v, end)) ==> r matches Ok(
                (p, e2),
            ) && pv(Packet::GameIdentifier(p)) == v && e2 == end,
            spec_decode_game_identifier(data@, pos as int) matches Err(er) ==> r matches Err(e2)
                && e2 == er,
            r matches Ok((p, e2)) ==> pos < e2 <= data@.len(),
    {
        match read_frame(data, pos, 0x00, 0x13) {
            Result::Err(e) => Result::Err(e),
            Result::Ok((ps, pe)) => {
                if pe - ps < 3 {
                    return Result::Err(DecodeError::WrongLength);
                }
                let v_kind = match IdKind::from_value(data[ps]) {
                    Option::None => {
                        return Result::Err(DecodeError::InvalidEnum);
                    },
                    Option::Some(x) => x,
                };
                let v_encoding = match IdEncoding::from_value(data[ps + 1]) {
                    Option::None => {
                        return Result::Err(DecodeError::InvalidEnum);
                    },
                    Option::Some(x) => x,
                };
                let l = data[ps + 2] as usize;
                if l > pe - (ps + 3) {
                    return Result::Err(DecodeError::WrongLength);
                }
                let raw_name = subvec(data, ps + 3, ps + 3 + l);
                match bytes_to_string(raw_name) {
                    Option::None => Result::Err(DecodeError::InvalidUtf8),
                    Option::Some(st) => {
                        let v_identifier = subvec(data, ps + 3 + l, pe);
                        Result::Ok(
                            (
                                GameIdentifier {
                                    kind: v_kind,
                                    encoding: v_encoding,
                                    name: st,
                                    identifier: v_identifier,
                                },
                                pe,
                            ),
                        )
                    },
                }
            },
        }
    }
}

impl MovieFile {
    /// Decodes a [`MovieFile`] packet; on failure nothing is consumed.
    pub fn decode(data: &Vec<u8>, pos: usize) -> (r: Result<(MovieFile, usize), DecodeError>)
        ensures
            spec_decode_movie_file(data@, pos as int) matches Ok((v, end)) ==> r matches Ok(
                (p, e2),
            ) && pv(Packet::MovieFile(p)) == v && e2 == end,
            spec_decode_movie_file(data@, pos as int) matches Err(er) ==> r matches Err(e2) && e2
                == er,
            r matches Ok((p, e2)) ==> pos < e2 <= data@.len(),
    {
        match read_frame(data, pos, 0x00, 0x15) {
            Result::Err(e) => Result::Err(e),
            Result::Ok((ps, pe)) => {
                if pe - ps < 1 {
                    return Result::Err(DecodeError::WrongLength);
                }
                let l = data[ps] as usize;
                if l > pe - (ps + 1) {
                    return Result::Err(DecodeError::WrongLength);
                }
                let raw_name = subvec(data, ps + 1, ps + 1 + l);
                match bytes_to_string(raw_name) {
                    Option::None => Result::Err(DecodeError::InvalidUtf8),
                    Option::Some(st) => {
                        let v_data = subvec(data, ps + 1 + l, pe);
                        Result::Ok((MovieFile { name: st, data: v_data }, pe))
                    },
                }
            },
        }
    }
}

impl Unsupported {
    /// Decodes any packet as key, length and raw payload; on failure nothing
    /// is consumed.
    pub fn decode(data: &Vec<u8>, pos: usize) -> (r: Result<(Unsupported, usize), DecodeError>)
        ensures
            spec_decode_unsupported(data@, pos as int) matches Ok((v, end)) ==> r matches Ok(
                (p, e2),
            ) && pv(Packet::Unsupported(p)) == v && e2 == end,
            spec_decode_unsupported(data@, pos as int) matches Err(er) ==> r matches Err(e2) && e2
                == er,
            r matches Ok((p, e2)) ==> pos < e2 <= data@.len(),
    {
        if pos >= data.len() || data.len() - pos < 2 {
            return Result::Err(DecodeError::EndOfStream);
        }
        let key = subvec(data, pos, pos + 2);
        match read_plen(data, pos + 2) {
            Result::Err(e) => Result::Err(e),
            Result::Ok((n, q)) => {
                if n > data.len() - q {
                    return Result::Err(DecodeError::EndOfStream);
                }
                let d = subvec(data, q, q + n);
                Result::Ok((Unsupported { key, data: d }, q + n))
            },
        }
    }
}

impl Packet {
    fn decode_unsupported_wrap(data: &Vec<u8>, pos: usize) -> (r: Result<
        (Packet, usize),
        DecodeError,
    >)
        ensures
            spec_decode_unsupported(data@, pos as int) matches Ok((v, end)) ==> r matches Ok(
                (p, e2),
            ) && pv(p) == v && e2 == end,
            spec_decode_unsupported(data@, pos as int) matches Err(er) ==> r matches Err(e2) && e2
                == er,
            r matches Ok((p, e2)) ==> pos < e2 <= data@.len(),
    {
        match Unsupported::decode(data, pos) {
            Result::Ok((u, e)) => Result::Ok((Packet::Unsupported(u), e)),
            Result::Err(e) => Result::Err(e),
        }
    }

    /// Decodes the next packet at `pos`, within a nesting budget.
    #[verifier::rlimit(100)]
    fn decode_depth(data: &Vec<u8>, pos: usize, depth: usize) -> (r: Result<
        (Packet, usize),
        DecodeError,
    >)
        requires
            depth <= MAX_PACKET_DEPTH,
        ensures
            spec_decode_packet(data@, pos as int, depth as nat) matches Ok((v, end)) ==> r matches
                Ok((p, e2)) && pv(p) == v && e2 == end,
            spec_decode_packet(data@, pos as int, depth as nat) matches Err(er) ==> r matches Err(
                e2,
            ) && e2 == er,
            r matches Ok((p, e2)) ==> pos < e2 <= data@.len(),
        decreases MAX_PACKET_DEPTH - depth, 1int,
    {
        if pos >= data.len() || data.len() - pos < 2 {
            return Result::Err(DecodeError::EndOfStream);
        }
        let k0 = data[pos];
        let k1 = data[pos + 1];
        match (k0, k1) {
            (0x0, 0x1) => match ConsoleType::decode(data, pos) {
                Result::Ok((p, e)) => Result::Ok((Packet::ConsoleType(p), e)),
                Result::Err(_) => Packet::decode_unsupported_wrap(data, pos),
            },
            (0x0, 0x2) => match ConsoleRegion::decode(data, pos) {
                Result::Ok((p, e)) => Result::Ok((Packet::ConsoleRegion(p), e)),
                Result::Err(_) => Packet::decode_unsupported_wrap(data, pos),
            },
            (0x0, 0x3) => match GameTitle::decode(data, pos) {
                Result::Ok((p, e)) => Result::Ok((Packet::GameTitle(p), e)),
                Result::Err(_) => Packet::decode_unsupported_wrap(data, pos),
            },
            (0x0, 0x4) => match RomName::decode(data, pos) {
                Result::Ok((p, e)) => Result::Ok((Packet::RomName(p), e)),
                Result::Err(_) => Packet::decode_unsupported_wrap(data, pos),
            },
            (0x0, 0x5) => match Attribution::decode(data, pos) {
                Result::Ok((p, e)) => Result::Ok((Packet::Attribution(p), e)),
                Result::Err(_) => Packet::decode_unsupported_wrap(data, pos),
            },
            (0x0, 0x6) => match Category::decode(data, pos) {
                Result::Ok((p, e)) => Result::Ok((Packet::Category(p), e)),
                Result::Err(_) => Packet::decode_unsupported_wrap(data, pos),
            },
            (0x0, 0x7) => match EmulatorName::decode(data, pos) {
                Result::Ok((p, e)) => Result::Ok((Packet::EmulatorName(p), e)),
                Result::Err(_) => Packet::decode_unsupported_wrap(data, pos),
            },
            (0x0, 0x8) => match EmulatorVersion::decode(data, pos) {
                Result::Ok((p, e)) => Result::Ok((Packet::EmulatorVersion(p), e)),
                Result::Err(_) => Packet::decode_unsupported_wrap(data, pos),
            },
            (0x0, 0x9) => match EmulatorCore::decode(data, pos) {
                Result::Ok((p, e)) => Result::Ok((Packet::EmulatorCore(p), e)),
                Result::Err(_) => Packet::decode_unsupported_wrap(data, pos),
            },
            (0x0, 0xa) => match TasLastModified::decode(data, pos) {
                Result::Ok((p, e)) => Result::Ok((Packet::TasLastModified(p), e)),
                Result::Err(_) => Packet::decode_unsupported_wrap(data, pos),
            },
            (0x0, 0xb) => match DumpCreated::decode(data, pos) {
                Result::Ok((p, e)) => Result::Ok((Packet::DumpCreated(p), e)),
                Result::Err(_) => Packet::decode_unsupported_wrap(data, pos),
            },
            (0x0, 0xc) => match DumpLastModified::decode(data, pos) {
                Result::Ok((p, e)) => Result::Ok((Packet::DumpLastModified(p), e)),
                Result::Err(_) => Packet::decode_unsupported_wrap(data, pos),
            },
            (0x0, 0xd) => match TotalFrames::decode(data, pos) {
                Result::Ok((p, e)) => Result::Ok((Packet::TotalFrames(p), e)),
                Result::Err(_) => Packet::decode_unsupported_wrap(data, pos),
            },
            (0x0, 0xe) => match Rerecords::decode(data, pos) {
                Result::Ok((p, e)) => Result::Ok((Packet::Rerecords(p), e)),
                Result::Err(_) => Packet::decode_unsupported_wrap(data, pos),
            },
            (0x0, 0xf) => match SourceLink::decode(data, pos) {
                Result::Ok((p, e)) => Result::Ok((Packet::SourceLink(p), e)),
                Result::Err(_) => Packet::decode_unsupported_wrap(data, pos),
            },
            (0x0, 0x10) => match BlankFrames::decode(data, pos) {
                Result::Ok((p, e)) => Result::Ok((Packet::BlankFrames(p), e)),
                Result::Err(_) => Packet::decode_unsupported_wrap(data, pos),
            },
            (0x0, 0x11) => match Verified::decode(data, pos) {
                Result::Ok((p, e)) => Result::Ok((Packet::Verified(p), e)),
                Result::Err(_) => Packet::decode_unsupported_wrap(data, pos),
            },
            (0x0, 0x12) => match MemoryInit::decode(data, pos) {
                Result::Ok((p, e)) => Result::Ok((Packet::MemoryInit(p), e)),
                Result::Err(_) => Packet::decode_unsupported_wrap(data, pos),
            },
            (0x0, 0x13) => match GameIdentifier::decode(data, pos) {
                Result::Ok((p, e)) => Result::Ok((Packet::GameIdentifier(p), e)),
                Result::Err(_) => Packet::decode_unsupported_wrap(data, pos),
            },
            (0x0, 0x14) => match MovieLicense::decode(data, pos) {
                Result::Ok((p, e)) => Result::Ok((Packet::MovieLicense(p), e)),
                Result::Err(_) => Packet::decode_unsupported_wrap(data, pos),
            },
            (0x0, 0x15) => match MovieFile::decode(data, pos) {
                Result::Ok((p, e)) => Result::Ok((Packet::MovieFile(p), e)),
                Result::Err(_) => Packet::decode_unsupported_wrap(data, pos),
            },
            (0x0, 0xf0) => match PortController::decode(data, pos) {
                Result::Ok((p, e)) => Result::Ok((Packet::PortController(p), e)),
                Result::Err(_) => Packet::decode_unsupported_wrap(data, pos),
            },
            (0x0, 0xf1) => match PortOverread::decode(data, pos) {
                Result::Ok((p, e)) => Result::Ok((Packet::PortOverread(p), e)),
                Result::Err(_) => Packet::decode_unsupported_wrap(data, pos),
            },
            (0x1, 0x1) => match NesLatchFilter::decode(data, pos) {
                Result::Ok((p, e)) => Result::Ok((Packet::NesLatchFilter(p), e)),
                Result::Err(_) => Packet::decode_unsupported_wrap(data, pos),
            },
            (0x1, 0x2) => match NesClockFilter::decode(data, pos) {
                Result::Ok((p, e)) => Result::Ok((Packet::NesClockFilter(p), e)),
                Result::Err(_) => Packet::decode_unsupported_wrap(data, pos),
            },
            (0x1, 0x4) => match NesGameGenieCode::decode(data, pos) {
                Result::Ok((p, e)) => Result::Ok((Packet::NesGameGenieCode(p), e)),
                Result::Err(_) => Packet::decode_unsupported_wrap(data, pos),
            },
            (0x2, 0x1) => match SnesLatchFilter::decode(data, pos) {
                Result::Ok((p, e)) => Result::Ok((Packet::SnesLatchFilter(p), e)),
                Result::Err(_) => Packet::decode_unsupported_wrap(data, pos),
            },
            (0x2, 0x2) => match SnesClockFilter::decode(data, pos) {
                Result::Ok((p, e)) => Result::Ok((Packet::SnesClockFilter(p), e)),
                Result::Err(_) => Packet::decode_unsupported_wrap(data, pos),
            },
            (0x2, 0x4) => match SnesGameGenieCode::decode(data, pos) {
                Result::Ok((p, e)) => Result::Ok((Packet::SnesGameGenieCode(p), e)),
                Result::Err(_) => Packet::decode_unsupported_wrap(data, pos),
            },
            (0x2, 0x5) => match SnesLatchTrain::decode(data, pos) {
                Result::Ok((p, e)) => Result::Ok((Packet::SnesLatchTrain(p), e)),
                Result::Err(_) => Packet::decode_unsupported_wrap(data, pos),
            },
            (0x8, 0x4) => match GenesisGameGenieCode::decode(data, pos) {
                Result::Ok((p, e)) => Result::Ok((Packet::GenesisGameGenieCode(p), e)),
                Result::Err(_) => Packet::decode_unsupported_wrap(data, pos),
            },
            (0xfe, 0x1) => match InputChunk::decode(data, pos) {
                Result::Ok((p, e)) => Result::Ok((Packet::InputChunk(p), e)),
                Result::Err(_) => Packet::decode_unsupported_wrap(data, pos),
            },
            (0xfe, 0x2) => match InputMoment::decode(data, pos) {
                Result::Ok((p, e)) => Result::Ok((Packet::InputMoment(p), e)),
                Result::Err(_) => Packet::decode_unsupported_wrap(data, pos),
            },
            (0xfe, 0x3) => match Transition::decode_depth(data, pos, depth) {
                Result::Ok((p, e)) => Result::Ok((Packet::Transition(p), e)),
                Result::Err(_) => Packet::decode_unsupported_wrap(data, pos),
            },
            (0xfe, 0x4) => match LagFrameChunk::decode(data, pos) {
                Result::Ok((p, e)) => Result::Ok((Packet::LagFrameChunk(p), e)),
                Result::Err(_) => Packet::decode_unsupported_wrap(data, pos),
            },
            (0xfe, 0x5) => match MovieTransition::decode_depth(data, pos, depth) {
                Result::Ok((p, e)) => Result::Ok((Packet::MovieTransition(p), e)),
                Result::Err(_) => Packet::decode_unsupported_wrap(data, pos),
            },
            (0xff, 0x1) => match Comment::decode(data, pos) {
                Result::Ok((p, e)) => Result::Ok((Packet::Comment(p), e)),
                Result::Err(_) => Packet::decode_unsupported_wrap(data, pos),
            },
            (0xff, 0xfe) => match Experimental::decode(data, pos) {
                Result::Ok((p, e)) => Result::Ok((Packet::Experimental(p), e)),
                Result::Err(_) => Packet::decode_unsupported_wrap(data, pos),
            },
            (0xff, 0xff) => match Unspecified::decode(data, pos) {
                Result::Ok((p, e)) => Result::Ok((Packet::Unspecified(p), e)),
                Result::Err(_) => Packet::decode_unsupported_wrap(data, pos),
            },
            _ => Packet::decode_unsupported_wrap(data, pos),
        }
    }

    /// Decodes the next packet from the buffer. On success the returned
    /// position is just past the packet; on failure nothing is consumed, so
    /// the caller may retry from its original position.
    pub fn decode(data: &Vec<u8>, pos: usize) -> (r: Result<(Packet, usize), DecodeError>)
        ensures
            spec_decode_packet(data@, pos as int, 0) matches Ok((v, end)) ==> r matches Ok((p, e2))
                && pv(p) == v && e2 == end,
            spec_decode_packet(data@, pos as int, 0) matches Err(er) ==> r matches Err(e2) && e2
                == er,
            r matches Ok((p, e2)) ==> pos < e2 <= data@.len(),
    {
        Packet::decode_depth(data, pos, 0)
    }
}

/// A successful length-prefix read stays within the buffer.
pub proof fn lemma_read_plen_bounds(s: Seq<u8>, pos: int)
    requires
        0 <= pos,
        s.len() <= usize::MAX,
    ensures
        spec_read_plen(s, pos) matches Ok((n, q)) ==> pos + 2 <= q <= s.len(),
{
}

/// A successful frame read yields a payload window past the key and length
/// prefix and inside the buffer.
pub proof fn lemma_read_frame_bounds(s: Seq<u8>, pos: int, k0: u8, k1: u8)
    requires
        0 <= pos,
        s.len() <= usize::MAX,
    ensures
        spec_read_frame(s, pos, k0, k1) matches Ok((ps, pe)) ==> pos + 4 <= ps <= pe <= s.len(),
{
    lemma_read_plen_bounds(s, pos + 2);
}

/// A successful unsupported-packet decode consumes at least one byte and
/// stays within the buffer.
pub proof fn lemma_decode_unsupported_advances(s: Seq<u8>, pos: int)
    requires
        0 <= pos,
        s.len() <= usize::MAX,
    ensures
        spec_decode_unsupported(s, pos) matches Ok((v, end)) ==> pos < end <= s.len(),
{
    lemma_read_plen_bounds(s, pos + 2);
}

/// Law: dispatcher totality. On any byte sequence, decoding from a packet
/// boundary either succeeds, consuming a non-empty prefix that stays within
/// the buffer, or fails; and a failure consumes nothing, since decoding
/// never moves the caller's position.
#[verifier::rlimit(100)]
pub proof fn lemma_decode_packet_advances(s: Seq<u8>, pos: int, depth: nat)
    requires
        0 <= pos,
        s.len() <= usize::MAX,
    ensures
        spec_decode_packet(s, pos, depth) matches Ok((v, end)) ==> pos < end <= s.len(),
{
    if depth <= MAX_PACKET_DEPTH && pos + 2 <= s.len() {
        lemma_decode_unsupported_advances(s, pos);
        assert(spec_decode_console_type(s, pos) matches Ok((v, end)) ==> pos < end <= s.len()) by {
            lemma_read_frame_bounds(s, pos, 0x0, 0x1);
        }
        assert(spec_decode_console_region_packet(s, pos) matches Ok((v, end)) ==> pos < end <= s.len()) by {
            lemma_read_frame_bounds(s, pos, 0x0, 0x2);
        }
        assert(spec_decode_game_title(s, pos) matches Ok((v, end)) ==> pos < end <= s.len()) by {
            lemma_read_frame_bounds(s, pos, 0x0, 0x3);
        }
        assert(spec_decode_rom_name(s, pos) matches Ok((v, end)) ==> pos < end <= s.len()) by {
            lemma_read_frame_bounds(s, pos, 0x0, 0x4);
        }
        assert(spec_decode_attribution(s, pos) matches Ok((v, end)) ==> pos < end <= s.len()) by {
            lemma_read_frame_bounds(s, pos, 0x0, 0x5);
        }
        assert(spec_decode_category(s, pos) matches Ok((v, end)) ==> pos < end <= s.len()) by {
            lemma_read_frame_bounds(s, pos, 0x0, 0x6);
        }
        assert(spec_decode_emulator_name(s, pos) matches Ok((v, end)) ==> pos < end <= s.len()) by {
            lemma_read_frame_bounds(s, pos, 0x0, 0x7);
        }
        assert(spec_decode_emulator_version(s, pos) matches Ok((v, end)) ==> pos < end <= s.len()) by {
            lemma_read_frame_bounds(s, pos, 0x0, 0x8);
        }
        assert(spec_decode_emulator_core(s, pos) matches Ok((v, end)) ==> pos < end <= s.len()) by {
            lemma_read_frame_bounds(s, pos, 0x0, 0x9);
        }
        assert(spec_decode_tas_last_modified(s, pos) matches Ok((v, end)) ==> pos < end <= s.len()) by {
            lemma_read_frame_bounds(s, pos, 0x0, 0xa);
        }
        assert(spec_decode_dump_created(s, pos) matches Ok((v, end)) ==> pos < end <= s.len()) by {
            lemma_read_frame_bounds(s, pos, 0x0, 0xb);
        }
        assert(spec_decode_dump_last_modified(s, pos) matches Ok((v, end)) ==> pos < end <= s.len()) by {
            lemma_read_frame_bounds(s, pos, 0x0, 0xc);
        }
        assert(spec_decode_total_frames(s, pos) matches Ok((v, end)) ==> pos < end <= s.len()) by {
            lemma_read_frame_bounds(s, pos, 0x0, 0xd);
        }
        assert(spec_decode_rerecords(s, pos) matches Ok((v, end)) ==> pos < end <= s.len()) by {
            lemma_read_frame_bounds(s, pos, 0x0, 0xe);
        }
        assert(spec_decode_source_link(s, pos) matches Ok((v, end)) ==> pos < end <= s.len()) by {
            lemma_read_frame_bounds(s, pos, 0x0, 0xf);
        }
        assert(spec_decode_blank_frames(s, pos) matches Ok((v, end)) ==> pos < end <= s.len()) by {
            lemma_read_frame_bounds(s, pos, 0x0, 0x10);
        }
        assert(spec_decode_verified(s, pos) matches Ok((v, end)) ==> pos < end <= s.len()) by {
            lemma_read_frame_bounds(s, pos, 0x0, 0x11);
        }
        assert(spec_decode_memory_init(s, pos) matches Ok((v, end)) ==> pos < end <= s.len()) by {
            lemma_read_frame_bounds(s, pos, 0x0, 0x12);
        }
        assert(spec_decode_game_identifier(s, pos) matches Ok((v, end)) ==> pos < end <= s.len()) by {
            lemma_read_frame_bounds(s, pos, 0x0, 0x13);
        }
        assert(spec_decode_movie_license(s, pos) matches Ok((v, end)) ==> pos < end <= s.len()) by {
            lemma_read_frame_bounds(s, pos, 0x0, 0x14);
        }
        assert(spec_decode_movie_file(s, pos) matches Ok((v, end)) ==> pos < end <= s.len()) by {
            lemma_read_frame_bounds(s, pos, 0x0, 0x15);
        }
        assert(spec_decode_port_controller(s, pos) matches Ok((v, end)) ==> pos < end <= s.len()) by {
            lemma_read_frame_bounds(s, pos, 0x0, 0xf0);
        }
        assert(spec_decode_port_overread(s, pos) matches Ok((v, end)) ==> pos < end <= s.len()) by {
            lemma_read_frame_bounds(s, pos, 0x0, 0xf1);
        }
        assert(spec_decode_nes_latch_filter(s, pos) matches Ok((v, end)) ==> pos < end <= s.len()) by {
            lemma_read_frame_bounds(s, pos, 0x1, 0x1);
        }
        assert(spec_decode_nes_clock_filter(s, pos) matches Ok((v, end)) ==> pos < end <= s.len()) by {
            lemma_read_frame_bounds(s, pos, 0x1, 0x2);
        }
        assert(spec_decode_nes_game_genie_code(s, pos) matches Ok((v, end)) ==> pos < end <= s.len()) by {
            lemma_read_frame_bounds(s, pos, 0x1, 0x4);
        }
        assert(spec_decode_snes_latch_filter(s, pos) matches Ok((v, end)) ==> pos < end <= s.len()) by {
            lemma_read_frame_bounds(s, pos, 0x2, 0x1);
        }
        assert(spec_decode_snes_clock_filter(s, pos) matches Ok((v, end)) ==> pos < end <= s.len()) by {
            lemma_read_frame_bounds(s, pos, 0x2, 0x2);
        }
        assert(spec_decode_snes_game_genie_code(s, pos) matches Ok((v, end)) ==> pos < end <= s.len()) by {
            lemma_read_frame_bounds(s, pos, 0x2, 0x4);
        }
        assert(spec_decode_snes_latch_train(s, pos) matches Ok((v, end)) ==> pos < end <= s.len()) by {
            lemma_read_frame_bounds(s, pos, 0x2, 0x5);
        }
        assert(spec_decode_genesis_game_genie_code(s, pos) matches Ok((v, end)) ==> pos < end <= s.len()) by {
            lemma_read_frame_bounds(s, pos, 0x8, 0x4);
        }
        assert(spec_decode_input_chunk(s, pos) matches Ok((v, end)) ==> pos < end <= s.len()) by {
            lemma_read_frame_bounds(s, pos, 0xfe, 0x1);
        }
        assert(spec_decode_input_moment(s, pos) matches Ok((v, end)) ==> pos < end <= s.len()) by {
            lemma_read_frame_bounds(s, pos, 0xfe, 0x2);
        }
        assert(spec_decode_transition(s, pos, depth) matches Ok((v, end)) ==> pos < end <= s.len()) by {
            lemma_read_frame_bounds(s, pos, 0xfe, 0x3);
        }
        assert(spec_decode_lag_frame_chunk(s, pos) matches Ok((v, end)) ==> pos < end <= s.len()) by {
            lemma_read_frame_bounds(s, pos, 0xfe, 0x4);
        }
        assert(spec_decode_movie_transition(s, pos, depth) matches Ok((v, end)) ==> pos < end <= s.len()) by {
            lemma_read_frame_bounds(s, pos, 0xfe, 0x5);
        }
        assert(spec_decode_comment(s, pos) matches Ok((v, end)) ==> pos < end <= s.len()) by {
            lemma_read_frame_bounds(s, pos, 0xff, 0x1);
        }
        assert(spec_decode_experimental(s, pos) matches Ok((v, end)) ==> pos < end <= s.len()) by {
            lemma_read_frame_bounds(s, pos, 0xff, 0xfe);
        }
        assert(spec_decode_unspecified(s, pos) matches Ok((v, end)) ==> pos < end <= s.len()) by {
            lemma_read_frame_bounds(s, pos, 0xff, 0xff);
        }
    }
}

} // verus!
