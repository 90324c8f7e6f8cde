//! The packet catalog: every typed packet of the format, the enumerations
//! their fields draw from, and the tagged union over all of them, together
//! with the catch-all `Unsupported` packet that preserves unknown keys.

use vstd::prelude::*;

pub mod decode;
pub mod encode;
pub mod model;

verus! {

/// The consoles the format knows; `Custom` defers to a name carried beside it.
#[derive(Debug, Copy, Clone, PartialEq, Eq, Structural)]
pub enum Console {
    Nes,
    Snes,
    N64,
    Gc,
    Gb,
    Gbc,
    Gba,
    Genesis,
    A2600,
    Custom,
}

/// The wire value of a [`Console`].
pub open spec fn console_value(v: Console) -> u8 {
    match v {
        Console::Nes => 0x1,
        Console::Snes => 0x2,
        Console::N64 => 0x3,
        Console::Gc => 0x4,
        Console::Gb => 0x5,
        Console::Gbc => 0x6,
        Console::Gba => 0x7,
        Console::Genesis => 0x8,
        Console::A2600 => 0x9,
        Console::Custom => 0xff,
    }
}

/// The [`Console`] denoted by a wire value, if any.
pub open spec fn console_from(b: u8) -> Option<Console> {
    if b == 0x1 {
        Some(Console::Nes)
    } else if b == 0x2 {
        Some(Console::Snes)
    } else if b == 0x3 {
        Some(Console::N64)
    } else if b == 0x4 {
        Some(Console::Gc)
    } else if b == 0x5 {
        Some(Console::Gb)
    } else if b == 0x6 {
        Some(Console::Gbc)
    } else if b == 0x7 {
        Some(Console::Gba)
    } else if b == 0x8 {
        Some(Console::Genesis)
    } else if b == 0x9 {
        Some(Console::A2600)
    } else if b == 0xff {
        Some(Console::Custom)
    } else {
        None
    }
}

pub proof fn lemma_console_round(v: Console)
    ensures
        console_from(console_value(v)) == Some(v),
{
}

impl Console {
    /// The value this variant takes on the wire.
    pub fn value(&self) -> (r: u8)
        ensures
            r == console_value(*self),
    {
        match self {
            Console::Nes => 0x1,
            Console::Snes => 0x2,
            Console::N64 => 0x3,
            Console::Gc => 0x4,
            Console::Gb => 0x5,
            Console::Gbc => 0x6,
            Console::Gba => 0x7,
            Console::Genesis => 0x8,
            Console::A2600 => 0x9,
            Console::Custom => 0xff,
        }
    }

    /// The variant a wire value denotes; unknown values are rejected.
    pub fn from_value(b: u8) -> (r: Option<Console>)
        ensures
            r == console_from(b),
    {
        match b {
            0x1 => Some(Console::Nes),
            0x2 => Some(Console::Snes),
            0x3 => Some(Console::N64),
            0x4 => Some(Console::Gc),
            0x5 => Some(Console::Gb),
            0x6 => Some(Console::Gbc),
            0x7 => Some(Console::Gba),
            0x8 => Some(Console::Genesis),
            0x9 => Some(Console::A2600),
            0xff => Some(Console::Custom),
            _ => None,
        }
    }
}

/// A console's video region. This enumeration is itself a packet.
#[derive(Debug, Copy, Clone, PartialEq, Eq, Structural)]
pub enum ConsoleRegion {
    Ntsc,
    Pal,
    Other,
}

/// The wire value of a [`ConsoleRegion`].
pub open spec fn console_region_value(v: ConsoleRegion) -> u8 {
    match v {
        ConsoleRegion::Ntsc => 0x1,
        ConsoleRegion::Pal => 0x2,
        ConsoleRegion::Other => 0xff,
    }
}

/// The [`ConsoleRegion`] denoted by a wire value, if any.
pub open spec fn console_region_from(b: u8) -> Option<ConsoleRegion> {
    if b == 0x1 {
        Some(ConsoleRegion::Ntsc)
    } else if b == 0x2 {
        Some(ConsoleRegion::Pal)
    } else if b == 0xff {
        Some(ConsoleRegion::Other)
    } else {
        None
    }
}

pub proof fn lemma_console_region_round(v: ConsoleRegion)
    ensures
        console_region_from(console_region_value(v)) == Some(v),
{
}

impl ConsoleRegion {
    /// The value this variant takes on the wire.
    pub fn value(&self) -> (r: u8)
        ensures
            r == console_region_value(*self),
    {
        match self {
            ConsoleRegion::Ntsc => 0x1,
            ConsoleRegion::Pal => 0x2,
            ConsoleRegion::Other => 0xff,
        }
    }

    /// The variant a wire value denotes; unknown values are rejected.
    pub fn from_value(b: u8) -> (r: Option<ConsoleRegion>)
        ensures
            r == console_region_from(b),
    {
        match b {
            0x1 => Some(ConsoleRegion::Ntsc),
            0x2 => Some(ConsoleRegion::Pal),
            0xff => Some(ConsoleRegion::Other),
            _ => None,
        }
    }
}

/// The roles a contributor can hold.
#[derive(Debug, Copy, Clone, PartialEq, Eq, Structural)]
pub enum AttributionKind {
    Author,
    Verifier,
    TasdFileCreator,
    TasdFileEditor,
    Other,
}

/// The wire value of a [`AttributionKind`].
pub open spec fn attribution_kind_value(v: AttributionKind) -> u8 {
    match v {
        AttributionKind::Author => 0x1,
        AttributionKind::Verifier => 0x2,
        AttributionKind::TasdFileCreator => 0x3,
        AttributionKind::TasdFileEditor => 0x4,
        AttributionKind::Other => 0xff,
    }
}

/// The [`AttributionKind`] denoted by a wire value, if any.
pub open spec fn attribution_kind_from(b: u8) -> Option<AttributionKind> {
    if b == 0x1 {
        Some(AttributionKind::Author)
    } else if b == 0x2 {
        Some(AttributionKind::Verifier)
    } else if b == 0x3 {
        Some(AttributionKind::TasdFileCreator)
    } else if b == 0x4 {
        Some(AttributionKind::TasdFileEditor)
    } else if b == 0xff {
        Some(AttributionKind::Other)
    } else {
        None
    }
}

pub proof fn lemma_attribution_kind_round(v: AttributionKind)
    ensures
        attribution_kind_from(attribution_kind_value(v)) == Some(v),
{
}

impl AttributionKind {
    /// The value this variant takes on the wire.
    pub fn value(&self) -> (r: u8)
        ensures
            r == attribution_kind_value(*self),
    {
        match self {
            AttributionKind::Author => 0x1,
            AttributionKind::Verifier => 0x2,
            AttributionKind::TasdFileCreator => 0x3,
            AttributionKind::TasdFileEditor => 0x4,
            AttributionKind::Other => 0xff,
        }
    }

    /// The variant a wire value denotes; unknown values are rejected.
    pub fn from_value(b: u8) -> (r: Option<AttributionKind>)
        ensures
            r == attribution_kind_from(b),
    {
        match b {
            0x1 => Some(AttributionKind::Author),
            0x2 => Some(AttributionKind::Verifier),
            0x3 => Some(AttributionKind::TasdFileCreator),
            0x4 => Some(AttributionKind::TasdFileEditor),
            0xff => Some(AttributionKind::Other),
            _ => None,
        }
    }
}

/// The patterns a memory device may be initialized with.
#[derive(Debug, Copy, Clone, PartialEq, Eq, Structural)]
pub enum InitKind {
    NoInitialization,
    AllZeros,
    AllOnes,
    Repeating4Zeros4FF,
    Random,
    Custom,
}

/// The wire value of a [`InitKind`].
pub open spec fn init_kind_value(v: InitKind) -> u8 {
    match v {
        InitKind::NoInitialization => 0x1,
        InitKind::AllZeros => 0x2,
        InitKind::AllOnes => 0x3,
        InitKind::Repeating4Zeros4FF => 0x4,
        InitKind::Random => 0x5,
        InitKind::Custom => 0xff,
    }
}

/// The [`InitKind`] denoted by a wire value, if any.
pub open spec fn init_kind_from(b: u8) -> Option<InitKind> {
    if b == 0x1 {
        Some(InitKind::NoInitialization)
    } else if b == 0x2 {
        Some(InitKind::AllZeros)
    } else if b == 0x3 {
        Some(InitKind::AllOnes)
    } else if b == 0x4 {
        Some(InitKind::Repeating4Zeros4FF)
    } else if b == 0x5 {
        Some(InitKind::Random)
    } else if b == 0xff {
        Some(InitKind::Custom)
    } else {
        None
    }
}

pub proof fn lemma_init_kind_round(v: InitKind)
    ensures
        init_kind_from(init_kind_value(v)) == Some(v),
{
}

impl InitKind {
    /// The value this variant takes on the wire.
    pub fn value(&self) -> (r: u8)
        ensures
            r == init_kind_value(*self),
    {
        match self {
            InitKind::NoInitialization => 0x1,
            InitKind::AllZeros => 0x2,
            InitKind::AllOnes => 0x3,
            InitKind::Repeating4Zeros4FF => 0x4,
            InitKind::Random => 0x5,
            InitKind::Custom => 0xff,
        }
    }

    /// The variant a wire value denotes; unknown values are rejected.
    pub fn from_value(b: u8) -> (r: Option<InitKind>)
        ensures
            r == init_kind_from(b),
    {
        match b {
            0x1 => Some(InitKind::NoInitialization),
            0x2 => Some(InitKind::AllZeros),
            0x3 => Some(InitKind::AllOnes),
            0x4 => Some(InitKind::Repeating4Zeros4FF),
            0x5 => Some(InitKind::Random),
            0xff => Some(InitKind::Custom),
            _ => None,
        }
    }
}

/// The memory devices that can be initialized, per console.
#[derive(Debug, Copy, Clone, PartialEq, Eq, Structural)]
pub enum InitDevice {
    NesCpuRam,
    NesCartridgeSaveData,
    SnesCpuRam,
    SnesCartridgeSaveData,
    GbCpuRam,
    GbCartridgeSaveData,
    GbcCpuRam,
    GbcCartridgeSaveData,
    GbaCpuRam,
    GbaCartridgeSaveData,
    GenesisCpuRam,
    GenesisCartridgeSaveData,
    A2600CpuRam,
    A2600CartridgeSaveData,
    CustomDevice,
}

/// The wire value of a [`InitDevice`].
pub open spec fn init_device_value(v: InitDevice) -> u16 {
    match v {
        InitDevice::NesCpuRam => 0x101,
        InitDevice::NesCartridgeSaveData => 0x102,
        InitDevice::SnesCpuRam => 0x201,
        InitDevice::SnesCartridgeSaveData => 0x202,
        InitDevice::GbCpuRam => 0x501,
        InitDevice::GbCartridgeSaveData => 0x502,
        InitDevice::GbcCpuRam => 0x601,
        InitDevice::GbcCartridgeSaveData => 0x602,
        InitDevice::GbaCpuRam => 0x701,
        InitDevice::GbaCartridgeSaveData => 0x702,
        InitDevice::GenesisCpuRam => 0x801,
        InitDevice::GenesisCartridgeSaveData => 0x802,
        InitDevice::A2600CpuRam => 0x901,
        InitDevice::A2600CartridgeSaveData => 0x902,
        InitDevice::CustomDevice => 0xffff,
    }
}

/// The [`InitDevice`] denoted by a wire value, if any.
pub open spec fn init_device_from(b: u16) -> Option<InitDevice> {
    if b == 0x101 {
        Some(InitDevice::NesCpuRam)
    } else if b == 0x102 {
        Some(InitDevice::NesCartridgeSaveData)
    } else if b == 0x201 {
        Some(InitDevice::SnesCpuRam)
    } else if b == 0x202 {
        Some(InitDevice::SnesCartridgeSaveData)
    } else if b == 0x501 {
        Some(InitDevice::GbCpuRam)
    } else if b == 0x502 {
        Some(InitDevice::GbCartridgeSaveData)
    } else if b == 0x601 {
        Some(InitDevice::GbcCpuRam)
    } else if b == 0x602 {
        Some(InitDevice::GbcCartridgeSaveData)
    } else if b == 0x701 {
        Some(InitDevice::GbaCpuRam)
    } else if b == 0x702 {
        Some(InitDevice::GbaCartridgeSaveData)
    } else if b == 0x801 {
        Some(InitDevice::GenesisCpuRam)
    } else if b == 0x802 {
        Some(InitDevice::GenesisCartridgeSaveData)
    } else if b == 0x901 {
        Some(InitDevice::A2600CpuRam)
    } else if b == 0x902 {
        Some(InitDevice::A2600CartridgeSaveData)
    } else if b == 0xffff {
        Some(InitDevice::CustomDevice)
    } else {
        None
    }
}

pub proof fn lemma_init_device_round(v: InitDevice)
    ensures
        init_device_from(init_device_value(v)) == Some(v),
{
}

impl InitDevice {
    /// The value this variant takes on the wire.
    pub fn value(&self) -> (r: u16)
        ensures
            r == init_device_value(*self),
    {
        match self {
            InitDevice::NesCpuRam => 0x101,
            InitDevice::NesCartridgeSaveData => 0x102,
            InitDevice::SnesCpuRam => 0x201,
            InitDevice::SnesCartridgeSaveData => 0x202,
            InitDevice::GbCpuRam => 0x501,
            InitDevice::GbCartridgeSaveData => 0x502,
            InitDevice::GbcCpuRam => 0x601,
            InitDevice::GbcCartridgeSaveData => 0x602,
            InitDevice::GbaCpuRam => 0x701,
            InitDevice::GbaCartridgeSaveData => 0x702,
            InitDevice::GenesisCpuRam => 0x801,
            InitDevice::GenesisCartridgeSaveData => 0x802,
            InitDevice::A2600CpuRam => 0x901,
            InitDevice::A2600CartridgeSaveData => 0x902,
            InitDevice::CustomDevice => 0xffff,
        }
    }

    /// The variant a wire value denotes; unknown values are rejected.
    pub fn from_value(b: u16) -> (r: Option<InitDevice>)
        ensures
            r == init_device_from(b),
    {
        match b {
            0x101 => Some(InitDevice::NesCpuRam),
            0x102 => Some(InitDevice::NesCartridgeSaveData),
            0x201 => Some(InitDevice::SnesCpuRam),
            0x202 => Some(InitDevice::SnesCartridgeSaveData),
            0x501 => Some(InitDevice::GbCpuRam),
            0x502 => Some(InitDevice::GbCartridgeSaveData),
            0x601 => Some(InitDevice::GbcCpuRam),
            0x602 => Some(InitDevice::GbcCartridgeSaveData),
            0x701 => Some(InitDevice::GbaCpuRam),
            0x702 => Some(InitDevice::GbaCartridgeSaveData),
            0x801 => Some(InitDevice::GenesisCpuRam),
            0x802 => Some(InitDevice::GenesisCartridgeSaveData),
            0x901 => Some(InitDevice::A2600CpuRam),
            0x902 => Some(InitDevice::A2600CartridgeSaveData),
            0xffff => Some(InitDevice::CustomDevice),
            _ => None,
        }
    }
}

/// The kinds of game identifier, mostly hash algorithms.
#[derive(Debug, Copy, Clone, PartialEq, Eq, Structural)]
pub enum IdKind {
    Md5Hash,
    Sha1Hash,
    Sha224Hash,
    Sha256Hash,
    Sha384Hash,
    Sha512Hash,
    Sha512_224Hash,
    Sha512_256Hash,
    Sha3_224Hash,
    Sha3_256Hash,
    Sha3_384Hash,
    Sha3_512Hash,
    Shake128Hash,
    Shake256Hash,
    Other,
}

/// The wire value of a [`IdKind`].
pub open spec fn id_kind_value(v: IdKind) -> u8 {
    match v {
        IdKind::Md5Hash => 0x1,
        IdKind::Sha1Hash => 0x2,
        IdKind::Sha224Hash => 0x3,
        IdKind::Sha256Hash => 0x4,
        IdKind::Sha384Hash => 0x5,
        IdKind::Sha512Hash => 0x6,
        IdKind::Sha512_224Hash => 0x7,
        IdKind::Sha512_256Hash => 0x8,
        IdKind::Sha3_224Hash => 0x9,
        IdKind::Sha3_256Hash => 0xa,
        IdKind::Sha3_384Hash => 0xb,
        IdKind::Sha3_512Hash => 0xc,
        IdKind::Shake128Hash => 0xd,
        IdKind::Shake256Hash => 0xe,
        IdKind::Other => 0xff,
    }
}

/// The [`IdKind`] denoted by a wire value, if any.
pub open spec fn id_kind_from(b: u8) -> Option<IdKind> {
    if b == 0x1 {
        Some(IdKind::Md5Hash)
    } else if b == 0x2 {
        Some(IdKind::Sha1Hash)
    } else if b == 0x3 {
        Some(IdKind::Sha224Hash)
    } else if b == 0x4 {
        Some(IdKind::Sha256Hash)
    } else if b == 0x5 {
        Some(IdKind::Sha384Hash)
    } else if b == 0x6 {
        Some(IdKind::Sha512Hash)
    } else if b == 0x7 {
        Some(IdKind::Sha512_224Hash)
    } else if b == 0x8 {
        Some(IdKind::Sha512_256Hash)
    } else if b == 0x9 {
        Some(IdKind::Sha3_224Hash)
    } else if b == 0xa {
        Some(IdKind::Sha3_256Hash)
    } else if b == 0xb {
        Some(IdKind::Sha3_384Hash)
    } else if b == 0xc {
        Some(IdKind::Sha3_512Hash)
    } else if b == 0xd {
        Some(IdKind::Shake128Hash)
    } else if b == 0xe {
        Some(IdKind::Shake256Hash)
    } else if b == 0xff {
        Some(IdKind::Other)
    } else {
        None
    }
}

pub proof fn lemma_id_kind_round(v: IdKind)
    ensures
        id_kind_from(id_kind_value(v)) == Some(v),
{
}

impl IdKind {
    /// The value this variant takes on the wire.
    pub fn value(&self) -> (r: u8)
        ensures
            r == id_kind_value(*self),
    {
        match self {
            IdKind::Md5Hash => 0x1,
            IdKind::Sha1Hash => 0x2,
            IdKind::Sha224Hash => 0x3,
            IdKind::Sha256Hash => 0x4,
            IdKind::Sha384Hash => 0x5,
            IdKind::Sha512Hash => 0x6,
            IdKind::Sha512_224Hash => 0x7,
            IdKind::Sha512_256Hash => 0x8,
            IdKind::Sha3_224Hash => 0x9,
            IdKind::Sha3_256Hash => 0xa,
            IdKind::Sha3_384Hash => 0xb,
            IdKind::Sha3_512Hash => 0xc,
            IdKind::Shake128Hash => 0xd,
            IdKind::Shake256Hash => 0xe,
            IdKind::Other => 0xff,
        }
    }

    /// The variant a wire value denotes; unknown values are rejected.
    pub fn from_value(b: u8) -> (r: Option<IdKind>)
        ensures
            r == id_kind_from(b),
    {
        match b {
            0x1 => Some(IdKind::Md5Hash),
            0x2 => Some(IdKind::Sha1Hash),
            0x3 => Some(IdKind::Sha224Hash),
            0x4 => Some(IdKind::Sha256Hash),
            0x5 => Some(IdKind::Sha384Hash),
            0x6 => Some(IdKind::Sha512Hash),
            0x7 => Some(IdKind::Sha512_224Hash),
            0x8 => Some(IdKind::Sha512_256Hash),
            0x9 => Some(IdKind::Sha3_224Hash),
            0xa => Some(IdKind::Sha3_256Hash),
            0xb => Some(IdKind::Sha3_384Hash),
            0xc => Some(IdKind::Sha3_512Hash),
            0xd => Some(IdKind::Shake128Hash),
            0xe => Some(IdKind::Shake256Hash),
            0xff => Some(IdKind::Other),
            _ => None,
        }
    }
}

/// How a game identifier's bytes are encoded.
#[derive(Debug, Copy, Clone, PartialEq, Eq, Structural)]
pub enum IdEncoding {
    RawBinary,
    Base16,
    Base32,
    Base64,
}

/// The wire value of a [`IdEncoding`].
pub open spec fn id_encoding_value(v: IdEncoding) -> u8 {
    match v {
        IdEncoding::RawBinary => 0x1,
        IdEncoding::Base16 => 0x2,
        IdEncoding::Base32 => 0x3,
        IdEncoding::Base64 => 0x4,
    }
}

/// The [`IdEncoding`] denoted by a wire value, if any.
pub open spec fn id_encoding_from(b: u8) -> Option<IdEncoding> {
    if b == 0x1 {
        Some(IdEncoding::RawBinary)
    } else if b == 0x2 {
        Some(IdEncoding::Base16)
    } else if b == 0x3 {
        Some(IdEncoding::Base32)
    } else if b == 0x4 {
        Some(IdEncoding::Base64)
    } else {
        None
    }
}

pub proof fn lemma_id_encoding_round(v: IdEncoding)
    ensures
        id_encoding_from(id_encoding_value(v)) == Some(v),
{
}

impl IdEncoding {
    /// The value this variant takes on the wire.
    pub fn value(&self) -> (r: u8)
        ensures
            r == id_encoding_value(*self),
    {
        match self {
            IdEncoding::RawBinary => 0x1,
            IdEncoding::Base16 => 0x2,
            IdEncoding::Base32 => 0x3,
            IdEncoding::Base64 => 0x4,
        }
    }

    /// The variant a wire value denotes; unknown values are rejected.
    pub fn from_value(b: u8) -> (r: Option<IdEncoding>)
        ensures
            r == id_encoding_from(b),
    {
        match b {
            0x1 => Some(IdEncoding::RawBinary),
            0x2 => Some(IdEncoding::Base16),
            0x3 => Some(IdEncoding::Base32),
            0x4 => Some(IdEncoding::Base64),
            _ => None,
        }
    }
}

/// The controller kinds a port can hold, per console.
#[derive(Debug, Copy, Clone, PartialEq, Eq, Structural)]
pub enum PortKind {
    NesStandardController,
    NesFourScore,
    NesZapper,
    NesPowerPad,
    FamicomFamilyBasicKeyboard,
    SnesStandardController,
    SnesSuperMultitap,
    SnesMouse,
    SnesSuperscope,
    N64StandardController,
    N64StandardControllerWithRumblePak,
    N64StandardControllerWithControllerPak,
    N64StandardControllerWithTransferPak,
    N64Mouse,
    N64VoiceRecognitionUnit,
    N64RandNetKeyboard,
    N64DenshaDeGo,
    GcStandardController,
    GcKeyboard,
    GbGamepad,
    GbcGamepad,
    GbaGamepad,
    Genesis3Button,
    Genesis6Button,
    A2600Joystick,
    A2600Paddle,
    A2600KeyboardController,
    Other,
}

/// The wire value of a [`PortKind`].
pub open spec fn port_kind_value(v: PortKind) -> u16 {
    match v {
        PortKind::NesStandardController => 0x101,
        PortKind::NesFourScore => 0x102,
        PortKind::NesZapper => 0x103,
        PortKind::NesPowerPad => 0x104,
        PortKind::FamicomFamilyBasicKeyboard => 0x105,
        PortKind::SnesStandardController => 0x201,
        PortKind::SnesSuperMultitap => 0x202,
        PortKind::SnesMouse => 0x203,
        PortKind::SnesSuperscope => 0x204,
        PortKind::N64StandardController => 0x301,
        PortKind::N64StandardControllerWithRumblePak => 0x302,
        PortKind::N64StandardControllerWithControllerPak => 0x303,
        PortKind::N64StandardControllerWithTransferPak => 0x304,
        PortKind::N64Mouse => 0x305,
        PortKind::N64VoiceRecognitionUnit => 0x306,
        PortKind::N64RandNetKeyboard => 0x307,
        PortKind::N64DenshaDeGo => 0x308,
        PortKind::GcStandardController => 0x401,
        PortKind::GcKeyboard => 0x402,
        PortKind::GbGamepad => 0x501,
        PortKind::GbcGamepad => 0x601,
        PortKind::GbaGamepad => 0x701,
        PortKind::Genesis3Button => 0x801,
        PortKind::Genesis6Button => 0x802,
        PortKind::A2600Joystick => 0x901,
        PortKind::A2600Paddle => 0x902,
        PortKind::A2600KeyboardController => 0x903,
        PortKind::Other => 0xffff,
    }
}

/// The [`PortKind`] denoted by a wire value, if any.
pub open spec fn port_kind_from(b: u16) -> Option<PortKind> {
    if b == 0x101 {
        Some(PortKind::NesStandardController)
    } else if b == 0x102 {
        Some(PortKind::NesFourScore)
    } else if b == 0x103 {
        Some(PortKind::NesZapper)
    } else if b == 0x104 {
        Some(PortKind::NesPowerPad)
    } else if b == 0x105 {
        Some(PortKind::FamicomFamilyBasicKeyboard)
    } else if b == 0x201 {
        Some(PortKind::SnesStandardController)
    } else if b == 0x202 {
        Some(PortKind::SnesSuperMultitap)
    } else if b == 0x203 {
        Some(PortKind::SnesMouse)
    } else if b == 0x204 {
        Some(PortKind::SnesSuperscope)
    } else if b == 0x301 {
        Some(PortKind::N64StandardController)
    } else if b == 0x302 {
        Some(PortKind::N64StandardControllerWithRumblePak)
    } else if b == 0x303 {
        Some(PortKind::N64StandardControllerWithControllerPak)
    } else if b == 0x304 {
        Some(PortKind::N64StandardControllerWithTransferPak)
    } else if b == 0x305 {
        Some(PortKind::N64Mouse)
    } else if b == 0x306 {
        Some(PortKind::N64VoiceRecognitionUnit)
    } else if b == 0x307 {
        Some(PortKind::N64RandNetKeyboard)
    } else if b == 0x308 {
        Some(PortKind::N64DenshaDeGo)
    } else if b == 0x401 {
        Some(PortKind::GcStandardController)
    } else if b == 0x402 {
        Some(PortKind::GcKeyboard)
    } else if b == 0x501 {
        Some(PortKind::GbGamepad)
    } else if b == 0x601 {
        Some(PortKind::GbcGamepad)
    } else if b == 0x701 {
        Some(PortKind::GbaGamepad)
    } else if b == 0x801 {
        Some(PortKind::Genesis3Button)
    } else if b == 0x802 {
        Some(PortKind::Genesis6Button)
    } else if b == 0x901 {
        Some(PortKind::A2600Joystick)
    } else if b == 0x902 {
        Some(PortKind::A2600Paddle)
    } else if b == 0x903 {
        Some(PortKind::A2600KeyboardController)
    } else if b == 0xffff {
        Some(PortKind::Other)
    } else {
        None
    }
}

pub proof fn lemma_port_kind_round(v: PortKind)
    ensures
        port_kind_from(port_kind_value(v)) == Some(v),
{
}

impl PortKind {
    /// The value this variant takes on the wire.
    pub fn value(&self) -> (r: u16)
        ensures
            r == port_kind_value(*self),
    {
        match self {
            PortKind::NesStandardController => 0x101,
            PortKind::NesFourScore => 0x102,
            PortKind::NesZapper => 0x103,
            PortKind::NesPowerPad => 0x104,
            PortKind::FamicomFamilyBasicKeyboard => 0x105,
            PortKind::SnesStandardController => 0x201,
            PortKind::SnesSuperMultitap => 0x202,
            PortKind::SnesMouse => 0x203,
            PortKind::SnesSuperscope => 0x204,
            PortKind::N64StandardController => 0x301,
            PortKind::N64StandardControllerWithRumblePak => 0x302,
            PortKind::N64StandardControllerWithControllerPak => 0x303,
            PortKind::N64StandardControllerWithTransferPak => 0x304,
            PortKind::N64Mouse => 0x305,
            PortKind::N64VoiceRecognitionUnit => 0x306,
            PortKind::N64RandNetKeyboard => 0x307,
            PortKind::N64DenshaDeGo => 0x308,
            PortKind::GcStandardController => 0x401,
            PortKind::GcKeyboard => 0x402,
            PortKind::GbGamepad => 0x501,
            PortKind::GbcGamepad => 0x601,
            PortKind::GbaGamepad => 0x701,
            PortKind::Genesis3Button => 0x801,
            PortKind::Genesis6Button => 0x802,
            PortKind::A2600Joystick => 0x901,
            PortKind::A2600Paddle => 0x902,
            PortKind::A2600KeyboardController => 0x903,
            PortKind::Other => 0xffff,
        }
    }

    /// The variant a wire value denotes; unknown values are rejected.
    pub fn from_value(b: u16) -> (r: Option<PortKind>)
        ensures
            r == port_kind_from(b),
    {
        match b {
            0x101 => Some(PortKind::NesStandardController),
            0x102 => Some(PortKind::NesFourScore),
            0x103 => Some(PortKind::NesZapper),
            0x104 => Some(PortKind::NesPowerPad),
            0x105 => Some(PortKind::FamicomFamilyBasicKeyboard),
            0x201 => Some(PortKind::SnesStandardController),
            0x202 => Some(PortKind::SnesSuperMultitap),
            0x203 => Some(PortKind::SnesMouse),
            0x204 => Some(PortKind::SnesSuperscope),
            0x301 => Some(PortKind::N64StandardController),
            0x302 => Some(PortKind::N64StandardControllerWithRumblePak),
            0x303 => Some(PortKind::N64StandardControllerWithControllerPak),
            0x304 => Some(PortKind::N64StandardControllerWithTransferPak),
            0x305 => Some(PortKind::N64Mouse),
            0x306 => Some(PortKind::N64VoiceRecognitionUnit),
            0x307 => Some(PortKind::N64RandNetKeyboard),
            0x308 => Some(PortKind::N64DenshaDeGo),
            0x401 => Some(PortKind::GcStandardController),
            0x402 => Some(PortKind::GcKeyboard),
            0x501 => Some(PortKind::GbGamepad),
            0x601 => Some(PortKind::GbcGamepad),
            0x701 => Some(PortKind::GbaGamepad),
            0x801 => Some(PortKind::Genesis3Button),
            0x802 => Some(PortKind::Genesis6Button),
            0x901 => Some(PortKind::A2600Joystick),
            0x902 => Some(PortKind::A2600Paddle),
            0x903 => Some(PortKind::A2600KeyboardController),
            0xffff => Some(PortKind::Other),
            _ => None,
        }
    }
}

/// What an input moment's index counts.
#[derive(Debug, Copy, Clone, PartialEq, Eq, Structural)]
pub enum MomentIndexKind {
    Frame,
    CycleCount,
    Milliseconds,
    Microseconds,
    Nanoseconds,
}

/// The wire value of a [`MomentIndexKind`].
pub open spec fn moment_index_kind_value(v: MomentIndexKind) -> u8 {
    match v {
        MomentIndexKind::Frame => 0x1,
        MomentIndexKind::CycleCount => 0x2,
        MomentIndexKind::Milliseconds => 0x3,
        MomentIndexKind::Microseconds => 0x4,
        MomentIndexKind::Nanoseconds => 0x5,
    }
}

/// The [`MomentIndexKind`] denoted by a wire value, if any.
pub open spec fn moment_index_kind_from(b: u8) -> Option<MomentIndexKind> {
    if b == 0x1 {
        Some(MomentIndexKind::Frame)
    } else if b == 0x2 {
        Some(MomentIndexKind::CycleCount)
    } else if b == 0x3 {
        Some(MomentIndexKind::Milliseconds)
    } else if b == 0x4 {
        Some(MomentIndexKind::Microseconds)
    } else if b == 0x5 {
        Some(MomentIndexKind::Nanoseconds)
    } else {
        None
    }
}

pub proof fn lemma_moment_index_kind_round(v: MomentIndexKind)
    ensures
        moment_index_kind_from(moment_index_kind_value(v)) == Some(v),
{
}

impl MomentIndexKind {
    /// The value this variant takes on the wire.
    pub fn value(&self) -> (r: u8)
        ensures
            r == moment_index_kind_value(*self),
    {
        match self {
            MomentIndexKind::Frame => 0x1,
            MomentIndexKind::CycleCount => 0x2,
            MomentIndexKind::Milliseconds => 0x3,
            MomentIndexKind::Microseconds => 0x4,
            MomentIndexKind::Nanoseconds => 0x5,
        }
    }

    /// The variant a wire value denotes; unknown values are rejected.
    pub fn from_value(b: u8) -> (r: Option<MomentIndexKind>)
        ensures
            r == moment_index_kind_from(b),
    {
        match b {
            0x1 => Some(MomentIndexKind::Frame),
            0x2 => Some(MomentIndexKind::CycleCount),
            0x3 => Some(MomentIndexKind::Milliseconds),
            0x4 => Some(MomentIndexKind::Microseconds),
            0x5 => Some(MomentIndexKind::Nanoseconds),
            _ => None,
        }
    }
}

/// What a transition's index counts.
#[derive(Debug, Copy, Clone, PartialEq, Eq, Structural)]
pub enum TransitionIndexKind {
    Frame,
    CycleCount,
    Milliseconds,
    Microseconds,
    Nanoseconds,
    InputChunkByteIndex,
}

/// The wire value of a [`TransitionIndexKind`].
pub open spec fn transition_index_kind_value(v: TransitionIndexKind) -> u8 {
    match v {
        TransitionIndexKind::Frame => 0x1,
        TransitionIndexKind::CycleCount => 0x2,
        TransitionIndexKind::Milliseconds => 0x3,
        TransitionIndexKind::Microseconds => 0x4,
        TransitionIndexKind::Nanoseconds => 0x5,
        TransitionIndexKind::InputChunkByteIndex => 0x6,
    }
}

/// The [`TransitionIndexKind`] denoted by a wire value, if any.
pub open spec fn transition_index_kind_from(b: u8) -> Option<TransitionIndexKind> {
    if b == 0x1 {
        Some(TransitionIndexKind::Frame)
    } else if b == 0x2 {
        Some(TransitionIndexKind::CycleCount)
    } else if b == 0x3 {
        Some(TransitionIndexKind::Milliseconds)
    } else if b == 0x4 {
        Some(TransitionIndexKind::Microseconds)
    } else if b == 0x5 {
        Some(TransitionIndexKind::Nanoseconds)
    } else if b == 0x6 {
        Some(TransitionIndexKind::InputChunkByteIndex)
    } else {
        None
    }
}

pub proof fn lemma_transition_index_kind_round(v: TransitionIndexKind)
    ensures
        transition_index_kind_from(transition_index_kind_value(v)) == Some(v),
{
}

impl TransitionIndexKind {
    /// The value this variant takes on the wire.
    pub fn value(&self) -> (r: u8)
        ensures
            r == transition_index_kind_value(*self),
    {
        match self {
            TransitionIndexKind::Frame => 0x1,
            TransitionIndexKind::CycleCount => 0x2,
            TransitionIndexKind::Milliseconds => 0x3,
            TransitionIndexKind::Microseconds => 0x4,
            TransitionIndexKind::Nanoseconds => 0x5,
            TransitionIndexKind::InputChunkByteIndex => 0x6,
        }
    }

    /// The variant a wire value denotes; unknown values are rejected.
    pub fn from_value(b: u8) -> (r: Option<TransitionIndexKind>)
        ensures
            r == transition_index_kind_from(b),
    {
        match b {
            0x1 => Some(TransitionIndexKind::Frame),
            0x2 => Some(TransitionIndexKind::CycleCount),
            0x3 => Some(TransitionIndexKind::Milliseconds),
            0x4 => Some(TransitionIndexKind::Microseconds),
            0x5 => Some(TransitionIndexKind::Nanoseconds),
            0x6 => Some(TransitionIndexKind::InputChunkByteIndex),
            _ => None,
        }
    }
}

/// The kinds of non-input event a transition can describe.
#[derive(Debug, Copy, Clone, PartialEq, Eq, Structural)]
pub enum TransitionKind {
    SoftReset,
    PowerReset,
    RestartTasdFile,
    PacketDerived,
}

/// The wire value of a [`TransitionKind`].
pub open spec fn transition_kind_value(v: TransitionKind) -> u8 {
    match v {
        TransitionKind::SoftReset => 0x1,
        TransitionKind::PowerReset => 0x2,
        TransitionKind::RestartTasdFile => 0x3,
        TransitionKind::PacketDerived => 0xff,
    }
}

/// The [`TransitionKind`] denoted by a wire value, if any.
pub open spec fn transition_kind_from(b: u8) -> Option<TransitionKind> {
    if b == 0x1 {
        Some(TransitionKind::SoftReset)
    } else if b == 0x2 {
        Some(TransitionKind::PowerReset)
    } else if b == 0x3 {
        Some(TransitionKind::RestartTasdFile)
    } else if b == 0xff {
        Some(TransitionKind::PacketDerived)
    } else {
        None
    }
}

pub proof fn lemma_transition_kind_round(v: TransitionKind)
    ensures
        transition_kind_from(transition_kind_value(v)) == Some(v),
{
}

impl TransitionKind {
    /// The value this variant takes on the wire.
    pub fn value(&self) -> (r: u8)
        ensures
            r == transition_kind_value(*self),
    {
        match self {
            TransitionKind::SoftReset => 0x1,
            TransitionKind::PowerReset => 0x2,
            TransitionKind::RestartTasdFile => 0x3,
            TransitionKind::PacketDerived => 0xff,
        }
    }

    /// The variant a wire value denotes; unknown values are rejected.
    pub fn from_value(b: u8) -> (r: Option<TransitionKind>)
        ensures
            r == transition_kind_from(b),
    {
        match b {
            0x1 => Some(TransitionKind::SoftReset),
            0x2 => Some(TransitionKind::PowerReset),
            0x3 => Some(TransitionKind::RestartTasdFile),
            0xff => Some(TransitionKind::PacketDerived),
            _ => None,
        }
    }
}

/// The console this dump was made for; the name matters only for a custom console.
#[derive(Debug, Clone, PartialEq)]
pub struct ConsoleType {
    pub console: Console,
    pub name: String,
}

/// The title of the game being played.
#[derive(Debug, Clone, PartialEq)]
pub struct GameTitle {
    pub title: String,
}

/// The file name of the ROM image the dump was made against.
#[derive(Debug, Clone, PartialEq)]
pub struct RomName {
    pub name: String,
}

/// A person who contributed to the dump, and in what role.
#[derive(Debug, Clone, PartialEq)]
pub struct Attribution {
    pub kind: AttributionKind,
    pub name: String,
}

/// The category the run belongs to.
#[derive(Debug, Clone, PartialEq)]
pub struct Category {
    pub category: String,
}

/// The emulator the dump was made with.
#[derive(Debug, Clone, PartialEq)]
pub struct EmulatorName {
    pub name: String,
}

/// The emulator's version.
#[derive(Debug, Clone, PartialEq)]
pub struct EmulatorVersion {
    pub version: String,
}

/// The emulation core in use.
#[derive(Debug, Clone, PartialEq)]
pub struct EmulatorCore {
    pub core: String,
}

/// When the movie itself was last modified, as Unix seconds.
#[derive(Debug, Clone, PartialEq)]
pub struct TasLastModified {
    pub timestamp: i64,
}

/// When this dump was created, as Unix seconds.
#[derive(Debug, Clone, PartialEq)]
pub struct DumpCreated {
    pub timestamp: i64,
}

/// When this dump was last modified, as Unix seconds.
#[derive(Debug, Clone, PartialEq)]
pub struct DumpLastModified {
    pub timestamp: i64,
}

/// The total number of frames in the movie.
#[derive(Debug, Clone, PartialEq)]
pub struct TotalFrames {
    pub frames: u32,
}

/// How many rerecords went into the movie.
#[derive(Debug, Clone, PartialEq)]
pub struct Rerecords {
    pub rerecords: u32,
}

/// A link to the movie's source or publication.
#[derive(Debug, Clone, PartialEq)]
pub struct SourceLink {
    pub link: String,
}

/// Blank frames to insert (or trim, when negative) before playback.
#[derive(Debug, Clone, PartialEq)]
pub struct BlankFrames {
    pub frames: i16,
}

/// Whether the dump has been verified on real hardware.
#[derive(Debug, Clone, PartialEq)]
pub struct Verified {
    pub verified: bool,
}

/// How a memory device is initialized before playback, with optional raw contents.
#[derive(Debug, Clone, PartialEq)]
pub struct MemoryInit {
    pub data_type: InitKind,
    pub device: InitDevice,
    pub required: bool,
    pub name: String,
    pub data: Vec<u8>,
}

/// An identifier of the game image, such as a hash, with its encoding.
#[derive(Debug, Clone, PartialEq)]
pub struct GameIdentifier {
    pub kind: IdKind,
    pub encoding: IdEncoding,
    pub name: String,
    pub identifier: Vec<u8>,
}

/// The license the movie is published under.
#[derive(Debug, Clone, PartialEq)]
pub struct MovieLicense {
    pub license: String,
}

/// An embedded copy of the original movie file.
#[derive(Debug, Clone, PartialEq)]
pub struct MovieFile {
    pub name: String,
    pub data: Vec<u8>,
}

/// The controller kind plugged into a port.
#[derive(Debug, Clone, PartialEq)]
pub struct PortController {
    pub port: u8,
    pub kind: PortKind,
}

/// The level a port's data line returns on overread.
#[derive(Debug, Clone, PartialEq)]
pub struct PortOverread {
    pub port: u8,
    pub high: bool,
}

/// The time window for coalescing NES latch reads.
#[derive(Debug, Clone, PartialEq)]
pub struct NesLatchFilter {
    pub time: u16,
}

/// The NES clock filter setting.
#[derive(Debug, Clone, PartialEq)]
pub struct NesClockFilter {
    pub time: u8,
}

/// A Game Genie code applied on the NES.
#[derive(Debug, Clone, PartialEq)]
pub struct NesGameGenieCode {
    pub code: String,
}

/// The time window for coalescing SNES latch reads.
#[derive(Debug, Clone, PartialEq)]
pub struct SnesLatchFilter {
    pub time: u16,
}

/// The SNES clock filter setting.
#[derive(Debug, Clone, PartialEq)]
pub struct SnesClockFilter {
    pub time: u8,
}

/// A Game Genie code applied on the SNES.
#[derive(Debug, Clone, PartialEq)]
pub struct SnesGameGenieCode {
    pub code: String,
}

/// The lengths of successive SNES latch trains.
#[derive(Debug, Clone, PartialEq)]
pub struct SnesLatchTrain {
    pub latch_trains: Vec<u64>,
}

/// A Game Genie code applied on the Genesis.
#[derive(Debug, Clone, PartialEq)]
pub struct GenesisGameGenieCode {
    pub code: String,
}

/// A contiguous run of input bytes for one port.
#[derive(Debug, Clone, PartialEq)]
pub struct InputChunk {
    pub port: u8,
    pub inputs: Vec<u8>,
}

/// The inputs of one port at one specific index (frame, cycle or time).
#[derive(Debug, Clone, PartialEq)]
pub struct InputMoment {
    pub port: u8,
    pub hold: bool,
    pub index_type: MomentIndexKind,
    pub index: u64,
    pub inputs: Vec<u8>,
}

/// A non-input event at some index, with an optional nested packet describing it.
#[derive(Debug, PartialEq)]
pub struct Transition {
    pub port: u8,
    pub index_type: TransitionIndexKind,
    pub index: u64,
    pub transition_type: TransitionKind,
    pub inner_packet: Option<Box<Packet>>,
}

/// A run of lag frames starting at a movie frame.
#[derive(Debug, Clone, PartialEq)]
pub struct LagFrameChunk {
    pub movie_frame: u32,
    pub count: u32,
}

/// A non-input event at a movie frame, with an optional nested packet.
#[derive(Debug, PartialEq)]
pub struct MovieTransition {
    pub movie_frame: u32,
    pub transition_type: TransitionKind,
    pub inner_packet: Option<Box<Packet>>,
}

/// A free-form comment.
#[derive(Debug, Clone, PartialEq)]
pub struct Comment {
    pub comment: String,
}

/// Whether the dump uses experimental features.
#[derive(Debug, Clone, PartialEq)]
pub struct Experimental {
    pub experimental: bool,
}

/// Raw bytes with no assigned meaning.
#[derive(Debug, Clone, PartialEq)]
pub struct Unspecified {
    pub data: Vec<u8>,
}

/// An unknown-keyed packet, preserved verbatim for forward compatibility.
#[derive(Debug, Clone, PartialEq)]
pub struct Unsupported {
    pub key: Vec<u8>,
    pub data: Vec<u8>,
}

/// The tagged union over every packet the format defines.
#[derive(Debug, PartialEq)]
pub enum Packet {
    ConsoleType(ConsoleType),
    ConsoleRegion(ConsoleRegion),
    GameTitle(GameTitle),
    RomName(RomName),
    Attribution(Attribution),
    Category(Category),
    EmulatorName(EmulatorName),
    EmulatorVersion(EmulatorVersion),
    EmulatorCore(EmulatorCore),
    TasLastModified(TasLastModified),
    DumpCreated(DumpCreated),
    DumpLastModified(DumpLastModified),
    TotalFrames(TotalFrames),
    Rerecords(Rerecords),
    SourceLink(SourceLink),
    BlankFrames(BlankFrames),
    Verified(Verified),
    MemoryInit(MemoryInit),
    GameIdentifier(GameIdentifier),
    MovieLicense(MovieLicense),
    MovieFile(MovieFile),
    PortController(PortController),
    PortOverread(PortOverread),
    NesLatchFilter(NesLatchFilter),
    NesClockFilter(NesClockFilter),
    NesGameGenieCode(NesGameGenieCode),
    SnesLatchFilter(SnesLatchFilter),
    SnesClockFilter(SnesClockFilter),
    SnesGameGenieCode(SnesGameGenieCode),
    SnesLatchTrain(SnesLatchTrain),
    GenesisGameGenieCode(GenesisGameGenieCode),
    InputChunk(InputChunk),
    InputMoment(InputMoment),
    Transition(Transition),
    LagFrameChunk(LagFrameChunk),
    MovieTransition(MovieTransition),
    Comment(Comment),
    Experimental(Experimental),
    Unspecified(Unspecified),
    Unsupported(Unsupported),
}

impl TasLastModified {
    /// The current wall-clock instant, as Unix seconds.
    pub fn now() -> Self {
        TasLastModified { timestamp: crate::clock::unix_now() }
    }
}

impl DumpCreated {
    /// The current wall-clock instant, as Unix seconds.
    pub fn now() -> Self {
        DumpCreated { timestamp: crate::clock::unix_now() }
    }
}

impl DumpLastModified {
    /// The current wall-clock instant, as Unix seconds.
    pub fn now() -> Self {
        DumpLastModified { timestamp: crate::clock::unix_now() }
    }
}

impl Clone for Transition {
    fn clone(&self) -> Self
        decreases *self,
    {
        Transition {
            port: self.port,
            index_type: self.index_type,
            index: self.index,
            transition_type: self.transition_type,
            inner_packet: (match &self.inner_packet {
                Option::Some(b) => Option::Some(Box::new((**b).clone())),
                Option::None => Option::None,
            }),
        }
    }
}

impl Clone for MovieTransition {
    fn clone(&self) -> Self
        decreases *self,
    {
        MovieTransition {
            movie_frame: self.movie_frame,
            transition_type: self.transition_type,
            inner_packet: (match &self.inner_packet {
                Option::Some(b) => Option::Some(Box::new((**b).clone())),
                Option::None => Option::None,
            }),
        }
    }
}

impl Clone for Packet {
    fn clone(&self) -> Self
        decreases *self,
    {
        match self {
            Packet::ConsoleType(x) => Packet::ConsoleType(x.clone()),
            Packet::ConsoleRegion(x) => Packet::ConsoleRegion(*x),
            Packet::GameTitle(x) => Packet::GameTitle(x.clone()),
            Packet::RomName(x) => Packet::RomName(x.clone()),
            Packet::Attribution(x) => Packet::Attribution(x.clone()),
            Packet::Category(x) => Packet::Category(x.clone()),
            Packet::EmulatorName(x) => Packet::EmulatorName(x.clone()),
            Packet::EmulatorVersion(x) => Packet::EmulatorVersion(x.clone()),
            Packet::EmulatorCore(x) => Packet::EmulatorCore(x.clone()),
            Packet::TasLastModified(x) => Packet::TasLastModified(x.clone()),
            Packet::DumpCreated(x) => Packet::DumpCreated(x.clone()),
            Packet::DumpLastModified(x) => Packet::DumpLastModified(x.clone()),
            Packet::TotalFrames(x) => Packet::TotalFrames(x.clone()),
            Packet::Rerecords(x) => Packet::Rerecords(x.clone()),
            Packet::SourceLink(x) => Packet::SourceLink(x.clone()),
            Packet::BlankFrames(x) => Packet::BlankFrames(x.clone()),
            Packet::Verified(x) => Packet::Verified(x.clone()),
            Packet::MemoryInit(x) => Packet::MemoryInit(x.clone()),
            Packet::GameIdentifier(x) => Packet::GameIdentifier(x.clone()),
            Packet::MovieLicense(x) => Packet::MovieLicense(x.clone()),
            Packet::MovieFile(x) => Packet::MovieFile(x.clone()),
            Packet::PortController(x) => Packet::PortController(x.clone()),
            Packet::PortOverread(x) => Packet::PortOverread(x.clone()),
            Packet::NesLatchFilter(x) => Packet::NesLatchFilter(x.clone()),
            Packet::NesClockFilter(x) => Packet::NesClockFilter(x.clone()),
            Packet::NesGameGenieCode(x) => Packet::NesGameGenieCode(x.clone()),
            Packet::SnesLatchFilter(x) => Packet::SnesLatchFilter(x.clone()),
            Packet::SnesClockFilter(x) => Packet::SnesClockFilter(x.clone()),
            Packet::SnesGameGenieCode(x) => Packet::SnesGameGenieCode(x.clone()),
            Packet::SnesLatchTrain(x) => Packet::SnesLatchTrain(x.clone()),
            Packet::GenesisGameGenieCode(x) => Packet::GenesisGameGenieCode(x.clone()),
            Packet::InputChunk(x) => Packet::InputChunk(x.clone()),
            Packet::InputMoment(x) => Packet::InputMoment(x.clone()),
            Packet::Transition(x) => Packet::Transition(x.clone()),
            Packet::LagFrameChunk(x) => Packet::LagFrameChunk(x.clone()),
            Packet::MovieTransition(x) => Packet::MovieTransition(x.clone()),
            Packet::Comment(x) => Packet::Comment(x.clone()),
            Packet::Experimental(x) => Packet::Experimental(x.clone()),
            Packet::Unspecified(x) => Packet::Unspecified(x.clone()),
            Packet::Unsupported(x) => Packet::Unsupported(x.clone()),
        }
    }
}

} // verus!
