//! The packet encoders. Each encoder builds its payload into a buffer to
//! learn its length, then emits the key, the minimal length prefix and the
//! payload; the contract pins the emitted bytes to the packet's model bytes.

use vstd::prelude::*;
use crate::packets::Packet;
use crate::packets::Unsupported;
use crate::packets::Attribution;
use crate::packets::BlankFrames;
use crate::packets::Category;
use crate::packets::Comment;
use crate::packets::ConsoleType;
use crate::packets::DumpCreated;
use crate::packets::DumpLastModified;
use crate::packets::EmulatorCore;
use crate::packets::EmulatorName;
use crate::packets::EmulatorVersion;
use crate::packets::Experimental;
use crate::packets::GameIdentifier;
use crate::packets::GameTitle;
use crate::packets::GenesisGameGenieCode;
use crate::packets::InputChunk;
use crate::packets::InputMoment;
use crate::packets::LagFrameChunk;
use crate::packets::MemoryInit;
use crate::packets::MovieFile;
use crate::packets::MovieLicense;
use crate::packets::MovieTransition;
use crate::packets::NesClockFilter;
use crate::packets::NesGameGenieCode;
use crate::packets::NesLatchFilter;
use crate::packets::PortController;
use crate::packets::PortOverread;
use crate::packets::Rerecords;
use crate::packets::RomName;
use crate::packets::SnesClockFilter;
use crate::packets::SnesGameGenieCode;
use crate::packets::SnesLatchFilter;
use crate::packets::SnesLatchTrain;
use crate::packets::SourceLink;
use crate::packets::TasLastModified;
use crate::packets::TotalFrames;
use crate::packets::Transition;
use crate::packets::Unspecified;
use crate::packets::Verified;
use crate::packets::ConsoleRegion;
use crate::packets::model::PacketV;
use crate::packets::model::packet_bytes_v;
use crate::packets::model::payload_v;
use crate::packets::model::key_v;
use crate::packets::model::pv;
use crate::packets::model::encodable;
use crate::packets::model::u8str_seq;
use crate::packets::model::words_bytes;
use crate::packets::model::lemma_words_bytes_push;
use crate::strings::u8str_trunc;
use crate::strings::u8_string_bytes;
use crate::strings::string_bytes;
use crate::wire::framed;
use crate::wire::push_bytes;
use crate::wire::push_bool;
use crate::wire::push_plen;
use crate::wire::push_u8;
use crate::wire::push_u16;
use crate::wire::push_u32;
use crate::wire::push_u64;
use crate::wire::push_i16;
use crate::wire::push_i64;

verus! {

/// Appends each 64-bit word as eight big-endian bytes.
pub fn push_words(out: &mut Vec<u8>, ws: &Vec<u64>)
    ensures
        final(out)@ == old(out)@ + words_bytes(ws@),
{
    let mut i: usize = 0;
    while i < ws.len()
        invariant
            i <= ws@.len(),
            out@ == old(out)@ + words_bytes(ws@.subrange(0, i as int)),
        decreases ws@.len() - i,
    {
        push_u64(out, ws[i]);
        proof {
            lemma_words_bytes_push(ws@.subrange(0, i as int), ws@[i as int]);
            assert(ws@.subrange(0, i as int).push(ws@[i as int]) =~= ws@.subrange(0, i as int + 1));
        }
        i = i + 1;
    }
    proof {
        assert(ws@.subrange(0, ws@.len() as int) =~= ws@);
    }
}

/// Emits the shared outer framing around a finished payload.
fn frame(k0: u8, k1: u8, payload: Vec<u8>) -> (r: Vec<u8>)
    ensures
        r@ == framed(seq![k0, k1], payload@),
{
    let mut out: Vec<u8> = Vec::new();
    out.push(k0);
    out.push(k1);
    push_plen(&mut out, payload.len());
    push_bytes(&mut out, &payload);
    proof {
        assert(out@ =~= framed(seq![k0, k1], payload@));
    }
    out
}

impl ConsoleType {
    /// Encodes this packet into its wire bytes.
    pub fn encode(&self) -> (r: Vec<u8>)
        ensures
        r@ == packet_bytes_v(pv(Packet::ConsoleType(*self))),
    {
        let mut payload: Vec<u8> = Vec::new();
        let b_console = self.console.value();
        push_u8(&mut payload, b_console);
        let b_name = string_bytes(&self.name);
        push_bytes(&mut payload, &b_name);
        let r = frame(0x0, 0x1, payload);
        proof {
            assert(payload@ =~= payload_v(pv(Packet::ConsoleType(*self))));
        }
        r
    }
}

impl ConsoleRegion {
    /// Encodes this packet into its wire bytes.
    pub fn encode(&self) -> (r: Vec<u8>)
        ensures
        r@ == packet_bytes_v(pv(Packet::ConsoleRegion(*self))),
    {
        let mut payload: Vec<u8> = Vec::new();
        let b_region = self.value();
        push_u8(&mut payload, b_region);
        let r = frame(0x0, 0x2, payload);
        proof {
            assert(payload@ =~= payload_v(pv(Packet::ConsoleRegion(*self))));
        }
        r
    }
}

impl GameTitle {
    /// Encodes this packet into its wire bytes.
    pub fn encode(&self) -> (r: Vec<u8>)
        ensures
        r@ == packet_bytes_v(pv(Packet::GameTitle(*self))),
    {
        let mut payload: Vec<u8> = Vec::new();
        let b_title = string_bytes(&self.title);
        push_bytes(&mut payload, &b_title);
        let r = frame(0x0, 0x3, payload);
        proof {
            assert(payload@ =~= payload_v(pv(Packet::GameTitle(*self))));
        }
        r
    }
}

impl RomName {
    /// Encodes this packet into its wire bytes.
    pub fn encode(&self) -> (r: Vec<u8>)
        ensures
        r@ == packet_bytes_v(pv(Packet::RomName(*self))),
    {
        let mut payload: Vec<u8> = Vec::new();
        let b_name = string_bytes(&self.name);
        push_bytes(&mut payload, &b_name);
        let r = frame(0x0, 0x4, payload);
        proof {
            assert(payload@ =~= payload_v(pv(Packet::RomName(*self))));
        }
        r
    }
}

impl Attribution {
    /// Encodes this packet into its wire bytes.
    pub fn encode(&self) -> (r: Vec<u8>)
        ensures
        r@ == packet_bytes_v(pv(Packet::Attribution(*self))),
    {
        let mut payload: Vec<u8> = Vec::new();
        let b_kind = self.kind.value();
        push_u8(&mut payload, b_kind);
        let b_name = string_bytes(&self.name);
        push_bytes(&mut payload, &b_name);
        let r = frame(0x0, 0x5, payload);
        proof {
            assert(payload@ =~= payload_v(pv(Packet::Attribution(*self))));
        }
        r
    }
}

impl Category {
    /// Encodes this packet into its wire bytes.
    pub fn encode(&self) -> (r: Vec<u8>)
        ensures
        r@ == packet_bytes_v(pv(Packet::Category(*self))),
    {
        let mut payload: Vec<u8> = Vec::new();
        let b_category = string_bytes(&self.category);
        push_bytes(&mut payload, &b_category);
        let r = frame(0x0, 0x6, payload);
        proof {
            assert(payload@ =~= payload_v(pv(Packet::Category(*self))));
        }
        r
    }
}

impl EmulatorName {
    /// Encodes this packet into its wire bytes.
    pub fn encode(&self) -> (r: Vec<u8>)
        ensures
        r@ == packet_bytes_v(pv(Packet::EmulatorName(*self))),
    {
        let mut payload: Vec<u8> = Vec::new();
        let b_name = string_bytes(&self.name);
        push_bytes(&mut payload, &b_name);
        let r = frame(0x0, 0x7, payload);
        proof {
            assert(payload@ =~= payload_v(pv(Packet::EmulatorName(*self))));
        }
        r
    }
}

impl EmulatorVersion {
    /// Encodes this packet into its wire bytes.
    pub fn encode(&self) -> (r: Vec<u8>)
        ensures
        r@ == packet_bytes_v(pv(Packet::EmulatorVersion(*self))),
    {
        let mut payload: Vec<u8> = Vec::new();
        let b_version = string_bytes(&self.version);
        push_bytes(&mut payload, &b_version);
        let r = frame(0x0, 0x8, payload);
        proof {
            assert(payload@ =~= payload_v(pv(Packet::EmulatorVersion(*self))));
        }
        r
    }
}

impl EmulatorCore {
    /// Encodes this packet into its wire bytes.
    pub fn encode(&self) -> (r: Vec<u8>)
        ensures
        r@ == packet_bytes_v(pv(Packet::EmulatorCore(*self))),
    {
        let mut payload: Vec<u8> = Vec::new();
        let b_core = string_bytes(&self.core);
        push_bytes(&mut payload, &b_core);
        let r = frame(0x0, 0x9, payload);
        proof {
            assert(payload@ =~= payload_v(pv(Packet::EmulatorCore(*self))));
        }
        r
    }
}

impl TasLastModified {
    /// Encodes this packet into its wire bytes.
    pub fn encode(&self) -> (r: Vec<u8>)
        ensures
        r@ == packet_bytes_v(pv(Packet::TasLastModified(*self))),
    {
        let mut payload: Vec<u8> = Vec::new();
        push_i64(&mut payload, self.timestamp);
        let r = frame(0x0, 0xa, payload);
        proof {
            assert(payload@ =~= payload_v(pv(Packet::TasLastModified(*self))));
        }
        r
    }
}

impl DumpCreated {
    /// Encodes this packet into its wire bytes.
    pub fn encode(&self) -> (r: Vec<u8>)
        ensures
        r@ == packet_bytes_v(pv(Packet::DumpCreated(*self))),
    {
        let mut payload: Vec<u8> = Vec::new();
        push_i64(&mut payload, self.timestamp);
        let r = frame(0x0, 0xb, payload);
        proof {
            assert(payload@ =~= payload_v(pv(Packet::DumpCreated(*self))));
        }
        r
    }
}

impl DumpLastModified {
    /// Encodes this packet into its wire bytes.
    pub fn encode(&self) -> (r: Vec<u8>)
        ensures
        r@ == packet_bytes_v(pv(Packet::DumpLastModified(*self))),
    {
        let mut payload: Vec<u8> = Vec::new();
        push_i64(&mut payload, self.timestamp);
        let r = frame(0x0, 0xc, payload);
        proof {
            assert(payload@ =~= payload_v(pv(Packet::DumpLastModified(*self))));
        }
        r
    }
}

impl TotalFrames {
    /// Encodes this packet into its wire bytes.
    pub fn encode(&self) -> (r: Vec<u8>)
        ensures
        r@ == packet_bytes_v(pv(Packet::TotalFrames(*self))),
    {
        let mut payload: Vec<u8> = Vec::new();
        push_u32(&mut payload, self.frames);
        let r = frame(0x0, 0xd, payload);
        proof {
            assert(payload@ =~= payload_v(pv(Packet::TotalFrames(*self))));
        }
        r
    }
}

impl Rerecords {
    /// Encodes this packet into its wire bytes.
    pub fn encode(&self) -> (r: Vec<u8>)
        ensures
        r@ == packet_bytes_v(pv(Packet::Rerecords(*self))),
    {
        let mut payload: Vec<u8> = Vec::new();
        push_u32(&mut payload, self.rerecords);
        let r = frame(0x0, 0xe, payload);
        proof {
            assert(payload@ =~= payload_v(pv(Packet::Rerecords(*self))));
        }
        r
    }
}

impl SourceLink {
    /// Encodes this packet into its wire bytes.
    pub fn encode(&self) -> (r: Vec<u8>)
        ensures
        r@ == packet_bytes_v(pv(Packet::SourceLink(*self))),
    {
        let mut payload: Vec<u8> = Vec::new();
        let b_link = string_bytes(&self.link);
        push_bytes(&mut payload, &b_link);
        let r = frame(0x0, 0xf, payload);
        proof {
            assert(payload@ =~= payload_v(pv(Packet::SourceLink(*self))));
        }
        r
    }
}

impl BlankFrames {
    /// Encodes this packet into its wire bytes.
    pub fn encode(&self) -> (r: Vec<u8>)
        ensures
        r@ == packet_bytes_v(pv(Packet::BlankFrames(*self))),
    {
        let mut payload: Vec<u8> = Vec::new();
        push_i16(&mut payload, self.frames);
        let r = frame(0x0, 0x10, payload);
        proof {
            assert(payload@ =~= payload_v(pv(Packet::BlankFrames(*self))));
        }
        r
    }
}

impl Verified {
    /// Encodes this packet into its wire bytes.
    pub fn encode(&self) -> (r: Vec<u8>)
        ensures
        r@ == packet_bytes_v(pv(Packet::Verified(*self))),
    {
        let mut payload: Vec<u8> = Vec::new();
        push_bool(&mut payload, self.verified);
        let r = frame(0x0, 0x11, payload);
        proof {
            assert(payload@ =~= payload_v(pv(Packet::Verified(*self))));
        }
        r
    }
}

impl MemoryInit {
    /// Encodes this packet into its wire bytes.
    pub fn encode(&self) -> (r: Vec<u8>)
        ensures
        exists|t: Seq<u8>| u8str_trunc(self.name@, t) && r@ == framed(seq![0x0u8, 0x12u8], seq![crate::packets::init_kind_value(self.data_type)] + crate::wire::be16(crate::packets::init_device_value(self.device)) + seq![crate::wire::bool_byte(self.required)] + t + self.data@),
        encodable(pv(Packet::MemoryInit(*self))) ==> r@ == packet_bytes_v(pv(Packet::MemoryInit(*self))),
    {
        let mut payload: Vec<u8> = Vec::new();
        let b_data_type = self.data_type.value();
        push_u8(&mut payload, b_data_type);
        let b_device = self.device.value();
        push_u16(&mut payload, b_device);
        push_bool(&mut payload, self.required);
        let t_name = u8_string_bytes(self.name.as_str());
        push_bytes(&mut payload, &t_name);
        push_bytes(&mut payload, &self.data);
        let r = frame(0x0, 0x12, payload);
        proof {
            let t = t_name@;
            assert(r@ =~= framed(seq![0x0u8, 0x12u8], seq![crate::packets::init_kind_value(self.data_type)] + crate::wire::be16(crate::packets::init_device_value(self.device)) + seq![crate::wire::bool_byte(self.required)] + t + self.data@));
            if encodable(pv(Packet::MemoryInit(*self))) {
                assert(t == u8str_seq(self.name@));
                assert(payload@ =~= payload_v(pv(Packet::MemoryInit(*self))));
            }
        }
        r
    }
}

impl GameIdentifier {
    /// Encodes this packet into its wire bytes.
    pub fn encode(&self) -> (r: Vec<u8>)
        ensures
        exists|t: Seq<u8>| u8str_trunc(self.name@, t) && r@ == framed(seq![0x0u8, 0x13u8], seq![crate::packets::id_kind_value(self.kind)] + seq![crate::packets::id_encoding_value(self.encoding)] + t + self.identifier@),
        encodable(pv(Packet::GameIdentifier(*self))) ==> r@ == packet_bytes_v(pv(Packet::GameIdentifier(*self))),
    {
        let mut payload: Vec<u8> = Vec::new();
        let b_kind = self.kind.value();
        push_u8(&mut payload, b_kind);
        let b_encoding = self.encoding.value();
        push_u8(&mut payload, b_encoding);
        let t_name = u8_string_bytes(self.name.as_str());
        push_bytes(&mut payload, &t_name);
        push_bytes(&mut payload, &self.identifier);
        let r = frame(0x0, 0x13, payload);
        proof {
            let t = t_name@;
            assert(r@ =~= framed(seq![0x0u8, 0x13u8], seq![crate::packets::id_kind_value(self.kind)] + seq![crate::packets::id_encoding_value(self.encoding)] + t + self.identifier@));
            if encodable(pv(Packet::GameIdentifier(*self))) {
                assert(t == u8str_seq(self.name@));
                assert(payload@ =~= payload_v(pv(Packet::GameIdentifier(*self))));
            }
        }
        r
    }
}

impl MovieLicense {
    /// Encodes this packet into its wire bytes.
    pub fn encode(&self) -> (r: Vec<u8>)
        ensures
        r@ == packet_bytes_v(pv(Packet::MovieLicense(*self))),
    {
        let mut payload: Vec<u8> = Vec::new();
        let b_license = string_bytes(&self.license);
        push_bytes(&mut payload, &b_license);
        let r = frame(0x0, 0x14, payload);
        proof {
            assert(payload@ =~= payload_v(pv(Packet::MovieLicense(*self))));
        }
        r
    }
}

impl MovieFile {
    /// Encodes this packet into its wire bytes.
    pub fn encode(&self) -> (r: Vec<u8>)
        ensures
        exists|t: Seq<u8>| u8str_trunc(self.name@, t) && r@ == framed(seq![0x0u8, 0x15u8], t + self.data@),
        encodable(pv(Packet::MovieFile(*self))) ==> r@ == packet_bytes_v(pv(Packet::MovieFile(*self))),
    {
        let mut payload: Vec<u8> = Vec::new();
        let t_name = u8_string_bytes(self.name.as_str());
        push_bytes(&mut payload, &t_name);
        push_bytes(&mut payload, &self.data);
        let r = frame(0x0, 0x15, payload);
        proof {
            let t = t_name@;
            assert(r@ =~= framed(seq![0x0u8, 0x15u8], t + self.data@));
            if encodable(pv(Packet::MovieFile(*self))) {
                assert(t == u8str_seq(self.name@));
                assert(payload@ =~= payload_v(pv(Packet::MovieFile(*self))));
            }
        }
        r
    }
}

impl PortController {
    /// Encodes this packet into its wire bytes.
    pub fn encode(&self) -> (r: Vec<u8>)
        ensures
        r@ == packet_bytes_v(pv(Packet::PortController(*self))),
    {
        let mut payload: Vec<u8> = Vec::new();
        push_u8(&mut payload, self.port);
        let b_kind = self.kind.value();
        push_u16(&mut payload, b_kind);
        let r = frame(0x0, 0xf0, payload);
        proof {
            assert(payload@ =~= payload_v(pv(Packet::PortController(*self))));
        }
        r
    }
}

impl PortOverread {
    /// Encodes this packet into its wire bytes.
    pub fn encode(&self) -> (r: Vec<u8>)
        ensures
        r@ == packet_bytes_v(pv(Packet::PortOverread(*self))),
    {
        let mut payload: Vec<u8> = Vec::new();
        push_u8(&mut payload, self.port);
        push_bool(&mut payload, self.high);
        let r = frame(0x0, 0xf1, payload);
        proof {
            assert(payload@ =~= payload_v(pv(Packet::PortOverread(*self))));
        }
        r
    }
}

impl NesLatchFilter {
    /// Encodes this packet into its wire bytes.
    pub fn encode(&self) -> (r: Vec<u8>)
        ensures
        r@ == packet_bytes_v(pv(Packet::NesLatchFilter(*self))),
    {
        let mut payload: Vec<u8> = Vec::new();
        push_u16(&mut payload, self.time);
        let r = frame(0x1, 0x1, payload);
        proof {
            assert(payload@ =~= payload_v(pv(Packet::NesLatchFilter(*self))));
        }
        r
    }
}

impl NesClockFilter {
    /// Encodes this packet into its wire bytes.
    pub fn encode(&self) -> (r: Vec<u8>)
        ensures
        r@ == packet_bytes_v(pv(Packet::NesClockFilter(*self))),
    {
        let mut payload: Vec<u8> = Vec::new();
        push_u8(&mut payload, self.time);
        let r = frame(0x1, 0x2, payload);
        proof {
            assert(payload@ =~= payload_v(pv(Packet::NesClockFilter(*self))));
        }
        r
    }
}

impl NesGameGenieCode {
    /// Encodes this packet into its wire bytes.
    pub fn encode(&self) -> (r: Vec<u8>)
        ensures
        r@ == packet_bytes_v(pv(Packet::NesGameGenieCode(*self))),
    {
        let mut payload: Vec<u8> = Vec::new();
        let b_code = string_bytes(&self.code);
        push_bytes(&mut payload, &b_code);
        let r = frame(0x1, 0x4, payload);
        proof {
            assert(payload@ =~= payload_v(pv(Packet::NesGameGenieCode(*self))));
        }
        r
    }
}

impl SnesLatchFilter {
    /// Encodes this packet into its wire bytes.
    pub fn encode(&self) -> (r: Vec<u8>)
        ensures
        r@ == packet_bytes_v(pv(Packet::SnesLatchFilter(*self))),
    {
        let mut payload: Vec<u8> = Vec::new();
        push_u16(&mut payload, self.time);
        let r = frame(0x2, 0x1, payload);
        proof {
            assert(payload@ =~= payload_v(pv(Packet::SnesLatchFilter(*self))));
        }
        r
    }
}

impl SnesClockFilter {
    /// Encodes this packet into its wire bytes.
    pub fn encode(&self) -> (r: Vec<u8>)
        ensures
        r@ == packet_bytes_v(pv(Packet::SnesClockFilter(*self))),
    {
        let mut payload: Vec<u8> = Vec::new();
        push_u8(&mut payload, self.time);
        let r = frame(0x2, 0x2, payload);
        proof {
            assert(payload@ =~= payload_v(pv(Packet::SnesClockFilter(*self))));
        }
        r
    }
}

impl SnesGameGenieCode {
    /// Encodes this packet into its wire bytes.
    pub fn encode(&self) -> (r: Vec<u8>)
        ensures
        r@ == packet_bytes_v(pv(Packet::SnesGameGenieCode(*self))),
    {
        let mut payload: Vec<u8> = Vec::new();
        let b_code = string_bytes(&self.code);
        push_bytes(&mut payload, &b_code);
        let r = frame(0x2, 0x4, payload);
        proof {
            assert(payload@ =~= payload_v(pv(Packet::SnesGameGenieCode(*self))));
        }
        r
    }
}

impl SnesLatchTrain {
    /// Encodes this packet into its wire bytes.
    pub fn encode(&self) -> (r: Vec<u8>)
        ensures
        r@ == packet_bytes_v(pv(Packet::SnesLatchTrain(*self))),
    {
        let mut payload: Vec<u8> = Vec::new();
        push_words(&mut payload, &self.latch_trains);
        let r = frame(0x2, 0x5, payload);
        proof {
            assert(payload@ =~= payload_v(pv(Packet::SnesLatchTrain(*self))));
        }
        r
    }
}

impl GenesisGameGenieCode {
    /// Encodes this packet into its wire bytes.
    pub fn encode(&self) -> (r: Vec<u8>)
        ensures
        r@ == packet_bytes_v(pv(Packet::GenesisGameGenieCode(*self))),
    {
        let mut payload: Vec<u8> = Vec::new();
        let b_code = string_bytes(&self.code);
        push_bytes(&mut payload, &b_code);
        let r = frame(0x8, 0x4, payload);
        proof {
            assert(payload@ =~= payload_v(pv(Packet::GenesisGameGenieCode(*self))));
        }
        r
    }
}

impl InputChunk {
    /// Encodes this packet into its wire bytes.
    pub fn encode(&self) -> (r: Vec<u8>)
        ensures
        r@ == packet_bytes_v(pv(Packet::InputChunk(*self))),
    {
        let mut payload: Vec<u8> = Vec::new();
        push_u8(&mut payload, self.port);
        push_bytes(&mut payload, &self.inputs);
        let r = frame(0xfe, 0x1, payload);
        proof {
            assert(payload@ =~= payload_v(pv(Packet::InputChunk(*self))));
        }
        r
    }
}

impl InputMoment {
    /// Encodes this packet into its wire bytes.
    pub fn encode(&self) -> (r: Vec<u8>)
        ensures
        r@ == packet_bytes_v(pv(Packet::InputMoment(*self))),
    {
        let mut payload: Vec<u8> = Vec::new();
        push_u8(&mut payload, self.port);
        push_bool(&mut payload, self.hold);
        let b_index_type = self.index_type.value();
        push_u8(&mut payload, b_index_type);
        push_u64(&mut payload, self.index);
        push_bytes(&mut payload, &self.inputs);
        let r = frame(0xfe, 0x2, payload);
        proof {
            assert(payload@ =~= payload_v(pv(Packet::InputMoment(*self))));
        }
        r
    }
}

impl Transition {
    /// Encodes this packet into its wire bytes.
    pub fn encode(&self) -> (r: Vec<u8>)
        ensures
        encodable(pv(Packet::Transition(*self))) ==> r@ == packet_bytes_v(pv(Packet::Transition(*self))),
    decreases *self,
    {
        let mut payload: Vec<u8> = Vec::new();
        push_u8(&mut payload, self.port);
        let b_index_type = self.index_type.value();
        push_u8(&mut payload, b_index_type);
        push_u64(&mut payload, self.index);
        let b_transition_type = self.transition_type.value();
        push_u8(&mut payload, b_transition_type);
        match &self.inner_packet {
            Option::Some(b) => {
                let inner = (**b).encode();
                push_bytes(&mut payload, &inner);
            },
            Option::None => {},
        }
        let r = frame(0xfe, 0x3, payload);
        proof {
            if encodable(pv(Packet::Transition(*self))) {
                assert(payload@ =~= payload_v(pv(Packet::Transition(*self))));
            }
        }
        r
    }
}

impl LagFrameChunk {
    /// Encodes this packet into its wire bytes.
    pub fn encode(&self) -> (r: Vec<u8>)
        ensures
        r@ == packet_bytes_v(pv(Packet::LagFrameChunk(*self))),
    {
        let mut payload: Vec<u8> = Vec::new();
        push_u32(&mut payload, self.movie_frame);
        push_u32(&mut payload, self.count);
        let r = frame(0xfe, 0x4, payload);
        proof {
            assert(payload@ =~= payload_v(pv(Packet::LagFrameChunk(*self))));
        }
        r
    }
}

impl MovieTransition {
    /// Encodes this packet into its wire bytes.
    pub fn encode(&self) -> (r: Vec<u8>)
        ensures
        encodable(pv(Packet::MovieTransition(*self))) ==> r@ == packet_bytes_v(pv(Packet::MovieTransition(*self))),
    decreases *self,
    {
        let mut payload: Vec<u8> = Vec::new();
        push_u32(&mut payload, self.movie_frame);
        let b_transition_type = self.transition_type.value();
        push_u8(&mut payload, b_transition_type);
        match &self.inner_packet {
            Option::Some(b) => {
                let inner = (**b).encode();
                push_bytes(&mut payload, &inner);
            },
            Option::None => {},
        }
        let r = frame(0xfe, 0x5, payload);
        proof {
            if encodable(pv(Packet::MovieTransition(*self))) {
                assert(payload@ =~= payload_v(pv(Packet::MovieTransition(*self))));
            }
        }
        r
    }
}

impl Comment {
    /// Encodes this packet into its wire bytes.
    pub fn encode(&self) -> (r: Vec<u8>)
        ensures
        r@ == packet_bytes_v(pv(Packet::Comment(*self))),
    {
        let mut payload: Vec<u8> = Vec::new();
        let b_comment = string_bytes(&self.comment);
        push_bytes(&mut payload, &b_comment);
        let r = frame(0xff, 0x1, payload);
        proof {
            assert(payload@ =~= payload_v(pv(Packet::Comment(*self))));
        }
        r
    }
}

impl Experimental {
    /// Encodes this packet into its wire bytes.
    pub fn encode(&self) -> (r: Vec<u8>)
        ensures
        r@ == packet_bytes_v(pv(Packet::Experimental(*self))),
    {
        let mut payload: Vec<u8> = Vec::new();
        push_bool(&mut payload, self.experimental);
        let r = frame(0xff, 0xfe, payload);
        proof {
            assert(payload@ =~= payload_v(pv(Packet::Experimental(*self))));
        }
        r
    }
}

impl Unspecified {
    /// Encodes this packet into its wire bytes.
    pub fn encode(&self) -> (r: Vec<u8>)
        ensures
        r@ == packet_bytes_v(pv(Packet::Unspecified(*self))),
    {
        let mut payload: Vec<u8> = Vec::new();
        push_bytes(&mut payload, &self.data);
        let r = frame(0xff, 0xff, payload);
        proof {
            assert(payload@ =~= payload_v(pv(Packet::Unspecified(*self))));
        }
        r
    }
}

impl Unsupported {
    /// Writes the preserved key and payload back verbatim.
    pub fn encode(&self) -> (r: Vec<u8>)
        ensures
            r@ == packet_bytes_v(pv(Packet::Unsupported(*self))),
            r@ == framed(self.key@, self.data@),
    {
        let mut out: Vec<u8> = Vec::new();
        push_bytes(&mut out, &self.key);
        push_plen(&mut out, self.data.len());
        push_bytes(&mut out, &self.data);
        proof {
            assert(out@ =~= framed(self.key@, self.data@));
        }
        out
    }
}

impl Packet {
    /// Encodes the active variant.
    pub fn encode(&self) -> (r: Vec<u8>)
        ensures
            encodable(pv(*self)) ==> r@ == packet_bytes_v(pv(*self)),
        decreases *self,
    {
        match self {
            Packet::ConsoleType(x) => x.encode(),
            Packet::ConsoleRegion(x) => x.encode(),
            Packet::GameTitle(x) => x.encode(),
            Packet::RomName(x) => x.encode(),
            Packet::Attribution(x) => x.encode(),
            Packet::Category(x) => x.encode(),
            Packet::EmulatorName(x) => x.encode(),
            Packet::EmulatorVersion(x) => x.encode(),
            Packet::EmulatorCore(x) => x.encode(),
            Packet::TasLastModified(x) => x.encode(),
            Packet::DumpCreated(x) => x.encode(),
            Packet::DumpLastModified(x) => x.encode(),
            Packet::TotalFrames(x) => x.encode(),
            Packet::Rerecords(x) => x.encode(),
            Packet::SourceLink(x) => x.encode(),
            Packet::BlankFrames(x) => x.encode(),
            Packet::Verified(x) => x.encode(),
            Packet::MemoryInit(x) => x.encode(),
            Packet::GameIdentifier(x) => x.encode(),
            Packet::MovieLicense(x) => x.encode(),
            Packet::MovieFile(x) => x.encode(),
            Packet::PortController(x) => x.encode(),
            Packet::PortOverread(x) => x.encode(),
            Packet::NesLatchFilter(x) => x.encode(),
            Packet::NesClockFilter(x) => x.encode(),
            Packet::NesGameGenieCode(x) => x.encode(),
            Packet::SnesLatchFilter(x) => x.encode(),
            Packet::SnesClockFilter(x) => x.encode(),
            Packet::SnesGameGenieCode(x) => x.encode(),
            Packet::SnesLatchTrain(x) => x.encode(),
            Packet::GenesisGameGenieCode(x) => x.encode(),
            Packet::InputChunk(x) => x.encode(),
            Packet::InputMoment(x) => x.encode(),
            Packet::Transition(x) => x.encode(),
            Packet::LagFrameChunk(x) => x.encode(),
            Packet::MovieTransition(x) => x.encode(),
            Packet::Comment(x) => x.encode(),
            Packet::Experimental(x) => x.encode(),
            Packet::Unspecified(x) => x.encode(),
            Packet::Unsupported(x) => x.encode(),
        }
    }
}

} // verus!
