//! A verified codec for the TASD (Tool-Assisted Speedrun Dump) container
//! format: a typed, length-prefixed binary packet stream used to archive
//! input logs, metadata and memory snapshots of emulated console runs.
//!
//! A file is a four-byte magic number, a two-byte version, a one-byte key
//! width, then packets until the end of the input. Every decoder is proved
//! to return exactly what the specification-level decoder says, and the
//! round-trip laws state that decoding an encoded value gives the value
//! back.

use vstd::prelude::*;

pub mod clock;
pub mod laws;
pub mod legacy;
pub mod packets;
pub mod strings;
pub mod wire;

use crate::packets::DumpCreated;
use crate::packets::Packet;
use crate::packets::decode::DecodeError;
use crate::packets::decode::lemma_decode_packet_advances;
use crate::packets::decode::spec_decode_packet;
use crate::packets::model::PacketV;
use crate::packets::model::encodable;
use crate::packets::model::packet_bytes_v;
use crate::packets::model::pv;
use crate::wire::be16;
use crate::wire::combine16;
use crate::wire::push_u16;

verus! {

/// Why a whole file failed to parse or save.
#[derive(Debug, PartialEq)]
pub enum TasdError {
    /// A packet-level decode failed; an unexpected end of input after the
    /// header surfaces here as well.
    Packet(DecodeError),
    /// The input ended inside the magic number, version or key-width field.
    MissingHeader,
    /// The first four bytes are not the TASD magic number; they are carried
    /// for diagnostics.
    MagicNumberMismatch([u8; 4]),
    /// A version outside the supported set.
    UnsupportedVersion,
    /// A save was asked for without a path attached to the file.
    MissingPath,
}

/// The four magic bytes that open every file.
pub open spec fn magic_seq() -> Seq<u8> {
    seq![0x54u8, 0x41u8, 0x53u8, 0x44u8]
}

/// The model of a file: its header fields and the models of its packets,
/// in order. The attached path is no part of the wire form.
pub struct FileV {
    pub version: u16,
    pub keylen: u8,
    pub packets: Seq<PacketV>,
}

/// The wire form of a packet sequence: each packet's bytes, concatenated.
pub open spec fn packets_bytes(ps: Seq<PacketV>) -> Seq<u8>
    decreases ps.len(),
{
    if ps.len() == 0 {
        Seq::<u8>::empty()
    } else {
        packet_bytes_v(ps[0]) + packets_bytes(ps.drop_first())
    }
}

/// The wire form of a whole file.
pub open spec fn file_bytes(f: FileV) -> Seq<u8> {
    magic_seq() + be16(f.version) + seq![f.keylen] + packets_bytes(f.packets)
}

/// Every packet of the sequence encodes without truncation.
pub open spec fn all_encodable(ps: Seq<PacketV>) -> bool {
    forall|i: int| 0 <= i < ps.len() ==> encodable(#[trigger] ps[i])
}

/// Every packet of the sequence is a valid round-trip value.
pub open spec fn all_wf(ps: Seq<PacketV>) -> bool {
    forall|i: int| 0 <= i < ps.len() ==> crate::packets::model::wf_packet(#[trigger] ps[i])
}

/// A valid file value: the values the file round-trip law ranges over.
pub open spec fn wf_file(f: FileV) -> bool {
    &&& f.version == 1
    &&& all_wf(f.packets)
    &&& file_bytes(f).len() <= usize::MAX
}

/// What parsing the packet stream from `pos` yields: the packet models in
/// order, ended by end-of-stream exactly at the end of the input, or the
/// first error. The fuel only serves the recursion; any fuel at least the
/// number of remaining bytes gives the same answer.
pub open spec fn spec_parse_packets(s: Seq<u8>, pos: int, fuel: nat) -> Result<
    Seq<PacketV>,
    DecodeError,
>
    decreases fuel,
{
    match spec_decode_packet(s, pos, 0) {
        Result::Err(DecodeError::EndOfStream) => if pos == s.len() {
            Result::Ok(Seq::<PacketV>::empty())
        } else {
            Result::Err(DecodeError::EndOfStream)
        },
        Result::Err(e) => Result::Err(e),
        Result::Ok((v, end)) => if fuel == 0 {
            Result::Err(DecodeError::EndOfStream)
        } else {
            match spec_parse_packets(s, end as int, (fuel - 1) as nat) {
                Result::Err(e) => Result::Err(e),
                Result::Ok(rest) => Result::Ok(seq![v] + rest),
            }
        },
    }
}

/// The parse result does not depend on the fuel, once the fuel covers the
/// remaining input.
pub proof fn lemma_parse_packets_fuel(s: Seq<u8>, pos: int, f1: nat, f2: nat)
    requires
        0 <= pos,
        s.len() <= usize::MAX,
        f1 >= s.len() - pos,
        f2 >= s.len() - pos,
    ensures
        spec_parse_packets(s, pos, f1) == spec_parse_packets(s, pos, f2),
    decreases f1,
{
    lemma_decode_packet_advances(s, pos, 0);
    match spec_decode_packet(s, pos, 0) {
        Result::Err(e) => {},
        Result::Ok((v, end)) => {
            lemma_parse_packets_fuel(s, end as int, (f1 - 1) as nat, (f2 - 1) as nat);
        },
    }
}

/// A Tool-Assisted Speedrun Dump file: the header fields, the packets in
/// order, and, when the file was read from storage, the path it came from.
#[derive(Debug, Clone, PartialEq)]
pub struct TasdFile {
    pub version: u16,
    pub keylen: u8,
    pub packets: Vec<Packet>,
    pub path: Option<String>,
}

/// The model of a file value.
pub open spec fn fv(f: TasdFile) -> FileV {
    FileV {
        version: f.version,
        keylen: f.keylen,
        packets: f.packets@.map_values(|p: Packet| pv(p)),
    }
}

impl Default for TasdFile {
    /// An empty file at the current version with the two-byte key width.
    fn default() -> (r: Self)
        ensures
            r.version == 1,
            r.keylen == 2,
            r.packets@.len() == 0,
            r.path is None,
    {
        TasdFile { version: 1, keylen: 2, packets: Vec::new(), path: None }
    }
}

impl TasdFile {
    /// Creates a new file holding one packet: the creation stamp, taken
    /// from the wall clock.
    pub fn new() -> (r: Self)
        ensures
            r.version == 1,
            r.keylen == 2,
            r.packets@.len() == 1,
            r.packets@[0] is DumpCreated,
            r.path is None,
    {
        let mut tasd = Self::default();
        tasd.packets.push(Packet::DumpCreated(DumpCreated::now()));
        tasd
    }

    /// Parses a byte buffer into a file.
    ///
    /// The buffer must open with a valid header, and the packets must end
    /// exactly at the end of the buffer; any trailing partial packet is an
    /// error. The contract gives, for every input, either the parsed models
    /// of all packets or the exact error.
    #[verifier::rlimit(100)]
    pub fn parse_slice(data: &Vec<u8>) -> (r: Result<TasdFile, TasdError>)
        ensures
            data@.len() < 4 ==> r == Result::<TasdFile, TasdError>::Err(TasdError::MissingHeader),
            data@.len() >= 4 && data@.subrange(0, 4) != magic_seq() ==> (r matches Err(e) && e
                matches TasdError::MagicNumberMismatch(m) && m@ == data@.subrange(0, 4)),
            data@.len() >= 4 && data@.subrange(0, 4) == magic_seq() && data@.len() < 6 ==> r
                == Result::<TasdFile, TasdError>::Err(TasdError::MissingHeader),
            data@.len() >= 6 && data@.subrange(0, 4) == magic_seq() && combine16(
                data@[4],
                data@[5],
            ) != 1 ==> r == Result::<TasdFile, TasdError>::Err(TasdError::UnsupportedVersion),
            data@.len() == 6 && data@.subrange(0, 4) == magic_seq() && combine16(
                data@[4],
                data@[5],
            ) == 1 ==> r == Result::<TasdFile, TasdError>::Err(TasdError::MissingHeader),
            data@.len() >= 7 && data@.subrange(0, 4) == magic_seq() && combine16(
                data@[4],
                data@[5],
            ) == 1 ==> match spec_parse_packets(data@, 7, (data@.len() - 7) as nat) {
                Result::Ok(vs) => r matches Ok(f) && f.version == 1 && f.keylen == data@[6]
                    && f.packets@.map_values(|p: Packet| pv(p)) == vs && f.path is None,
                Result::Err(e) => r == Result::<TasdFile, TasdError>::Err(TasdError::Packet(e)),
            },
    {
        let n = data.len();
        if n < 4 {
            return Result::Err(TasdError::MissingHeader);
        }
        if data[0] != 0x54 || data[1] != 0x41 || data[2] != 0x53 || data[3] != 0x44 {
            proof {
                assert(data@.subrange(0, 4)[0] == data@[0]);
                assert(data@.subrange(0, 4)[1] == data@[1]);
                assert(data@.subrange(0, 4)[2] == data@[2]);
                assert(data@.subrange(0, 4)[3] == data@[3]);
            }
            return Result::Err(
                TasdError::MagicNumberMismatch([data[0], data[1], data[2], data[3]]),
            );
        }
        proof {
            assert(data@.subrange(0, 4) =~= magic_seq());
        }
        if n < 6 {
            return Result::Err(TasdError::MissingHeader);
        }
        let version = crate::packets::decode::get16(data, 4);
        if version != 1 {
            return Result::Err(TasdError::UnsupportedVersion);
        }
        if n < 7 {
            return Result::Err(TasdError::MissingHeader);
        }
        let keylen = data[6];
        let mut packets: Vec<Packet> = Vec::new();
        let mut pos: usize = 7;
        loop
            invariant
                7 <= pos <= n,
                n == data@.len() <= usize::MAX,
                data@.subrange(0, 4) == magic_seq(),
                combine16(data@[4], data@[5]) == 1,
                version == 1,
                keylen == data@[6],
                match spec_parse_packets(data@, pos as int, (n - pos) as nat) {
                    Result::Ok(rest) => spec_parse_packets(data@, 7, (n - 7) as nat) == Result::<
                        Seq<PacketV>,
                        DecodeError,
                    >::Ok(packets@.map_values(|p: Packet| pv(p)) + rest),
                    Result::Err(e) => spec_parse_packets(data@, 7, (n - 7) as nat) == Result::<
                        Seq<PacketV>,
                        DecodeError,
                    >::Err(e),
                },
            decreases n - pos,
        {
            let ghost views = packets@.map_values(|p: Packet| pv(p));
            match Packet::decode(data, pos) {
                Result::Ok((p, end)) => {
                    proof {
                        lemma_decode_packet_advances(data@, pos as int, 0);
                        lemma_parse_packets_fuel(
                            data@,
                            end as int,
                            (n - pos - 1) as nat,
                            (n - end) as nat,
                        );
                        let vs1 = views.push(pv(p));
                        assert(packets@.push(p).map_values(|q: Packet| pv(q)) =~= vs1);
                        match spec_parse_packets(data@, end as int, (n - end) as nat) {
                            Result::Ok(rest) => {
                                assert(vs1 + rest =~= views + (seq![pv(p)] + rest));
                            },
                            Result::Err(e) => {},
                        }
                    }
                    packets.push(p);
                    pos = end;
                },
                Result::Err(e) => {
                    if e == DecodeError::EndOfStream && pos == n {
                        proof {
                            let ghost views2 = packets@.map_values(|p: Packet| pv(p));
                            assert(views2 + Seq::<PacketV>::empty() =~= views2);
                        }
                        return Result::Ok(
                            TasdFile { version, keylen, packets, path: Option::None },
                        );
                    }
                    return Result::Err(TasdError::Packet(e));
                },
            }
        }
    }

    /// Serializes the file: magic number, version, key width, then each
    /// packet in order.
    pub fn encode(&self) -> (r: Vec<u8>)
        ensures
            all_encodable(fv(*self).packets) ==> r@ == file_bytes(fv(*self)),
    {
        let mut out: Vec<u8> = Vec::new();
        out.push(0x54);
        out.push(0x41);
        out.push(0x53);
        out.push(0x44);
        push_u16(&mut out, self.version);
        out.push(self.keylen);
        let ghost header = magic_seq() + be16(self.version) + seq![self.keylen];
        proof {
            assert(out@ =~= header);
        }
        let ghost views = self.packets@.map_values(|p: Packet| pv(p));
        let mut i: usize = 0;
        while i < self.packets.len()
            invariant
                i <= self.packets@.len(),
                views == self.packets@.map_values(|p: Packet| pv(p)),
                header == magic_seq() + be16(self.version) + seq![self.keylen],
                all_encodable(views.subrange(0, i as int)) ==> out@ == header + packets_bytes(
                    views.subrange(0, i as int),
                ),
            decreases self.packets@.len() - i,
        {
            let piece = self.packets[i].encode();
            crate::wire::push_bytes(&mut out, &piece);
            proof {
                if all_encodable(views.subrange(0, i as int + 1)) {
                    assert(forall|j: int|
                        0 <= j < i ==> views.subrange(0, i as int)[j] == #[trigger] views.subrange(
                            0,
                            i as int + 1,
                        )[j]);
                    assert(all_encodable(views.subrange(0, i as int)));
                    assert(views.subrange(0, i as int + 1)[i as int] == views[i as int]);
                    assert(encodable(views[i as int]));
                    assert(views[i as int] == pv(self.packets@[i as int]));
                    lemma_packets_bytes_snoc(views.subrange(0, i as int), views[i as int]);
                    assert(views.subrange(0, i as int).push(views[i as int]) =~= views.subrange(
                        0,
                        i as int + 1,
                    ));
                    assert(out@ =~= header + packets_bytes(views.subrange(0, i as int + 1)));
                }
            }
            i = i + 1;
        }
        proof {
            assert(views.subrange(0, views.len() as int) =~= views);
        }
        out
    }
}

/// Appending one packet to a sequence appends its bytes.
pub proof fn lemma_packets_bytes_snoc(ps: Seq<PacketV>, v: PacketV)
    ensures
        packets_bytes(ps.push(v)) == packets_bytes(ps) + packet_bytes_v(v),
    decreases ps.len(),
{
    if ps.len() == 0 {
        assert(ps.push(v)[0] == v);
        assert(ps.push(v).drop_first() =~= ps);
        assert(packets_bytes(ps.push(v)) =~= packets_bytes(ps) + packet_bytes_v(v));
    } else {
        assert(ps.push(v).drop_first() =~= ps.drop_first().push(v));
        lemma_packets_bytes_snoc(ps.drop_first(), v);
        assert(ps.push(v)[0] == ps[0]);
        assert(packets_bytes(ps.push(v)) =~= packets_bytes(ps) + packet_bytes_v(v));
    }
}

} // verus!
