//! Projections between a TASD file and two historical input formats: the
//! flat two-port R08 input dump, and the text-based Game Boy input script.

use vstd::prelude::*;

use crate::TasdFile;
use crate::fv;
use crate::packets::Console;
use crate::packets::ConsoleType;
use crate::packets::DumpCreated;
use crate::packets::InputChunk;
use crate::packets::InputMoment;
use crate::packets::Packet;
use crate::packets::PortController;
use crate::packets::PortKind;
use crate::packets::console_value;
use crate::packets::model::PacketV;
use crate::packets::model::pv;
use vstd::string::StringExecFns;

verus! {

/// Why a projection into a legacy format failed.
#[derive(Debug, Copy, Clone, PartialEq, Eq, Structural)]
pub enum LegacyError {
    /// The file declares no port controllers at all.
    MissingPortControllers,
    /// An input refers to a port outside the legacy format's range.
    InputPortOutOfRange,
    /// A declared controller is not the kind the legacy format supports.
    UnsupportedControllers,
    /// The file's console is not one the legacy format covers.
    UnsupportedConsole,
}

// ---------------------------------------------------------------------------
// R08: a flat array of two-byte frames, one byte per port for exactly two
// NES standard controllers, with active-low semantics (each byte inverted).
// ---------------------------------------------------------------------------

#[derive(Debug, Default, Clone, PartialEq)]
pub struct R08 {
    pub inputs: Vec<[u8; 2]>,
}

/// True when the packet sequence declares no port controller.
pub open spec fn pc_missing(ps: Seq<PacketV>) -> bool {
    forall|i: int| 0 <= i < ps.len() ==> !(#[trigger] ps[i] matches PacketV::PortController { .. })
}

/// True when every declared controller is the NES standard controller.
pub open spec fn pc_all_nes(ps: Seq<PacketV>) -> bool {
    forall|i: int|
        0 <= i < ps.len() ==> (#[trigger] ps[i] matches PacketV::PortController { port, kind }
            ==> kind == PortKind::NesStandardController)
}

/// All input bytes destined for the given port, in packet order.
pub open spec fn lane(ps: Seq<PacketV>, portn: u8) -> Seq<u8>
    decreases ps.len(),
{
    if ps.len() == 0 {
        Seq::<u8>::empty()
    } else {
        lane(ps.drop_last(), portn) + (match ps.last() {
            PacketV::InputChunk { port, inputs } => if port == portn {
                inputs
            } else {
                Seq::<u8>::empty()
            },
            _ => Seq::<u8>::empty(),
        })
    }
}

/// The lane stretched to `n` bytes with the idle byte `0xFF`.
pub open spec fn padded(l: Seq<u8>, n: int) -> Seq<u8> {
    Seq::new(n as nat, |i: int| if i < l.len() { l[i] } else { 0xFFu8 })
}

impl R08 {
    /// Projects a TASD file into the R08 format.
    ///
    /// The file must declare at least one port controller and only NES
    /// standard controllers. Input bytes are gathered per port, the shorter
    /// lane is padded with the idle byte, and every byte is inverted onto
    /// the wire's active-low convention.
    pub fn try_from(tasd: TasdFile) -> (r: Result<R08, LegacyError>)
        ensures
            ({
                let ps = fv(tasd).packets;
                let l1 = lane(ps, 1);
                let l2 = lane(ps, 2);
                let n = if l1.len() >= l2.len() {
                    l1.len() as int
                } else {
                    l2.len() as int
                };
                &&& (pc_missing(ps) ==> r == Result::<R08, LegacyError>::Err(
                    LegacyError::MissingPortControllers,
                ))
                &&& (!pc_missing(ps) && !pc_all_nes(ps) ==> r == Result::<R08, LegacyError>::Err(
                    LegacyError::UnsupportedControllers,
                ))
                &&& (!pc_missing(ps) && pc_all_nes(ps) ==> (r matches Ok(out)
                    && out.inputs@.len() == n && (forall|i: int|
                    0 <= i < n ==> #[trigger] out.inputs@[i]@ == seq![
                        padded(l1, n)[i] ^ 0xFF,
                        padded(l2, n)[i] ^ 0xFF,
                    ])))
            }),
    {
        let ghost ps = fv(tasd).packets;
        let n_packets = tasd.packets.len();
        let mut found_pc = false;
        let mut all_nes = true;
        let mut i: usize = 0;
        while i < n_packets
            invariant
                i <= n_packets,
                n_packets == tasd.packets@.len(),
                ps == fv(tasd).packets,
                found_pc == !pc_missing(ps.subrange(0, i as int)),
                all_nes == pc_all_nes(ps.subrange(0, i as int)),
            decreases n_packets - i,
        {
            proof {
                assert(ps[i as int] == pv(tasd.packets@[i as int]));
            }
            match &tasd.packets[i] {
                Packet::PortController(pc) => {
                    found_pc = true;
                    match pc.kind {
                        PortKind::NesStandardController => {},
                        _ => {
                            all_nes = false;
                        },
                    }
                },
                _ => {},
            }
            proof {
                assert(ps.subrange(0, i as int + 1).drop_last() =~= ps.subrange(0, i as int));
                assert(ps.subrange(0, i as int + 1).last() == ps[i as int]);
                assert(forall|j: int|
                    0 <= j < i + 1 ==> #[trigger] ps.subrange(0, i as int + 1)[j] == ps[j]);
                assert(forall|j: int|
                    0 <= j < i ==> #[trigger] ps.subrange(0, i as int)[j] == ps[j]);
            }
            i = i + 1;
        }
        proof {
            assert(ps.subrange(0, n_packets as int) =~= ps);
        }
        if !found_pc {
            return Result::Err(LegacyError::MissingPortControllers);
        }
        if !all_nes {
            return Result::Err(LegacyError::UnsupportedControllers);
        }
        let mut p1: Vec<u8> = Vec::new();
        let mut p2: Vec<u8> = Vec::new();
        let mut i: usize = 0;
        while i < n_packets
            invariant
                i <= n_packets,
                n_packets == tasd.packets@.len(),
                ps == fv(tasd).packets,
                p1@ == lane(ps.subrange(0, i as int), 1),
                p2@ == lane(ps.subrange(0, i as int), 2),
            decreases n_packets - i,
        {
            proof {
                assert(ps[i as int] == pv(tasd.packets@[i as int]));
            }
            match &tasd.packets[i] {
                Packet::InputChunk(c) => {
                    if c.port == 1 {
                        let ghost before = p1@;
                        let mut j: usize = 0;
                        while j < c.inputs.len()
                            invariant
                                j <= c.inputs@.len(),
                                p1@ == before + c.inputs@.subrange(0, j as int),
                            decreases c.inputs@.len() - j,
                        {
                            p1.push(c.inputs[j]);
                            proof {
                                assert(p1@ =~= before + c.inputs@.subrange(0, j as int + 1));
                            }
                            j = j + 1;
                        }
                        proof {
                            assert(c.inputs@.subrange(0, c.inputs@.len() as int) =~= c.inputs@);
                        }
                    } else if c.port == 2 {
                        let ghost before = p2@;
                        let mut j: usize = 0;
                        while j < c.inputs.len()
                            invariant
                                j <= c.inputs@.len(),
                                p2@ == before + c.inputs@.subrange(0, j as int),
                            decreases c.inputs@.len() - j,
                        {
                            p2.push(c.inputs[j]);
                            proof {
                                assert(p2@ =~= before + c.inputs@.subrange(0, j as int + 1));
                            }
                            j = j + 1;
                        }
                        proof {
                            assert(c.inputs@.subrange(0, c.inputs@.len() as int) =~= c.inputs@);
                        }
                    }
                },
                _ => {},
            }
            proof {
                assert(ps.subrange(0, i as int + 1).drop_last() =~= ps.subrange(0, i as int));
                assert(ps.subrange(0, i as int + 1).last() == ps[i as int]);
                assert(p1@ =~= lane(ps.subrange(0, i as int + 1), 1));
                assert(p2@ =~= lane(ps.subrange(0, i as int + 1), 2));
            }
            i = i + 1;
        }
        proof {
            assert(ps.subrange(0, n_packets as int) =~= ps);
        }
        let ghost l1 = lane(ps, 1);
        let ghost l2 = lane(ps, 2);
        let n = if p1.len() >= p2.len() {
            p1.len()
        } else {
            p2.len()
        };
        while p1.len() < n
            invariant
                l1.len() <= p1@.len() <= n,
                p1@ == padded(l1, p1@.len() as int),
            decreases n - p1@.len(),
        {
            p1.push(0xFF);
            proof {
                assert(p1@ =~= padded(l1, p1@.len() as int));
            }
        }
        while p2.len() < n
            invariant
                l2.len() <= p2@.len() <= n,
                p2@ == padded(l2, p2@.len() as int),
            decreases n - p2@.len(),
        {
            p2.push(0xFF);
            proof {
                assert(p2@ =~= padded(l2, p2@.len() as int));
            }
        }
        proof {
            assert(p1@ =~= padded(l1, n as int));
            assert(p2@ =~= padded(l2, n as int));
        }
        let mut inputs: Vec<[u8; 2]> = Vec::new();
        let mut i: usize = 0;
        while i < n
            invariant
                i <= n,
                p1@ == padded(l1, n as int),
                p2@ == padded(l2, n as int),
                p1@.len() == n,
                p2@.len() == n,
                inputs@.len() == i,
                forall|k: int|
                    0 <= k < i ==> #[trigger] inputs@[k]@ == seq![p1@[k] ^ 0xFF, p2@[k] ^ 0xFF],
            decreases n - i,
        {
            let a = p1[i] ^ 0xFF;
            let b = p2[i] ^ 0xFF;
            let frame: [u8; 2] = [a, b];
            proof {
                assert(frame@ =~= seq![a, b]);
            }
            inputs.push(frame);
            i = i + 1;
        }
        Result::Ok(R08 { inputs })
    }
}

impl TasdFile {
    /// Lifts an R08 input dump into a TASD file: a creation stamp, the NES
    /// console declaration, and, when there are any frames, the two port
    /// declarations and one inverted input chunk per port.
    pub fn from(legacy: R08) -> (r: TasdFile)
        ensures
            ({
                let frames = legacy.inputs@;
                let views = r.packets@.map_values(|p: Packet| pv(p));
                &&& r.version == 1
                &&& r.keylen == 2
                &&& r.path is None
                &&& views.len() == (if frames.len() == 0 {
                    2int
                } else {
                    6int
                })
                &&& views[0] matches PacketV::DumpCreated { .. }
                &&& views[1] == PacketV::ConsoleType {
                    console: Console::Nes,
                    name: Seq::<char>::empty(),
                }
                &&& frames.len() > 0 ==> {
                    &&& views[2] == PacketV::PortController {
                        port: 1,
                        kind: PortKind::NesStandardController,
                    }
                    &&& views[3] == PacketV::PortController {
                        port: 2,
                        kind: PortKind::NesStandardController,
                    }
                    &&& views[4] == PacketV::InputChunk {
                        port: 1,
                        inputs: Seq::new(frames.len(), |i: int| frames[i][0] ^ 0xFF),
                    }
                    &&& views[5] == PacketV::InputChunk {
                        port: 2,
                        inputs: Seq::new(frames.len(), |i: int| frames[i][1] ^ 0xFF),
                    }
                }
            }),
    {
        let ghost frames = legacy.inputs@;
        let mut tasd = TasdFile::new();
        tasd.packets.push(
            Packet::ConsoleType(ConsoleType { console: Console::Nes, name: String::new() }),
        );
        let m = legacy.inputs.len();
        if m == 0 {
            proof {
                lemma_views_of_two(tasd.packets@);
            }
            return tasd;
        }
        let mut p1: Vec<u8> = Vec::new();
        let mut p2: Vec<u8> = Vec::new();
        let mut i: usize = 0;
        while i < m
            invariant
                i <= m,
                m == frames.len(),
                frames == legacy.inputs@,
                p1@.len() == i,
                p2@.len() == i,
                forall|k: int| 0 <= k < i ==> #[trigger] p1@[k] == frames[k][0] ^ 0xFF,
                forall|k: int| 0 <= k < i ==> #[trigger] p2@[k] == frames[k][1] ^ 0xFF,
            decreases m - i,
        {
            let f = &legacy.inputs[i];
            p1.push(f[0] ^ 0xFF);
            p2.push(f[1] ^ 0xFF);
            i = i + 1;
        }
        proof {
            assert(p1@ =~= Seq::new(frames.len(), |i: int| frames[i][0] ^ 0xFF));
            assert(p2@ =~= Seq::new(frames.len(), |i: int| frames[i][1] ^ 0xFF));
        }
        tasd.packets.push(
            Packet::PortController(PortController { port: 1, kind: PortKind::NesStandardController }),
        );
        tasd.packets.push(
            Packet::PortController(PortController { port: 2, kind: PortKind::NesStandardController }),
        );
        tasd.packets.push(Packet::InputChunk(InputChunk { port: 1, inputs: p1 }));
        tasd.packets.push(Packet::InputChunk(InputChunk { port: 2, inputs: p2 }));
        proof {
            lemma_views_of_six(tasd.packets@);
        }
        tasd
    }
}

/// The packet views of a two-packet vector, element by element.
proof fn lemma_views_of_two(ps: Seq<Packet>)
    requires
        ps.len() == 2,
    ensures
        ps.map_values(|p: Packet| pv(p)).len() == 2,
        ps.map_values(|p: Packet| pv(p))[0] == pv(ps[0]),
        ps.map_values(|p: Packet| pv(p))[1] == pv(ps[1]),
{
}

/// The packet views of a six-packet vector, element by element.
proof fn lemma_views_of_six(ps: Seq<Packet>)
    requires
        ps.len() == 6,
    ensures
        ps.map_values(|p: Packet| pv(p)).len() == 6,
        forall|i: int| 0 <= i < 6 ==> ps.map_values(|p: Packet| pv(p))[i] == pv(#[trigger] ps[i]),
{
}

// ---------------------------------------------------------------------------
// GBI: a text dump of Game Boy inputs, one line per input, sorted by index.
// ---------------------------------------------------------------------------

#[derive(Debug, Default, Clone, PartialEq)]
pub struct Gbi {
    pub input_text: String,
    pub console_type: u8,
}

/// The console declared by the first console-type packet, if any.
pub open spec fn first_console(ps: Seq<PacketV>) -> Option<Console>
    decreases ps.len(),
{
    if ps.len() == 0 {
        Option::<Console>::None
    } else {
        match ps[0] {
            PacketV::ConsoleType { console, .. } => Option::Some(console),
            _ => first_console(ps.drop_first()),
        }
    }
}

/// The input-moment packets of the sequence, in order.
pub open spec fn moments(ps: Seq<PacketV>) -> Seq<PacketV>
    decreases ps.len(),
{
    if ps.len() == 0 {
        Seq::<PacketV>::empty()
    } else {
        moments(ps.drop_last()) + (match ps.last() {
            PacketV::InputMoment { .. } => seq![ps.last()],
            _ => Seq::<PacketV>::empty(),
        })
    }
}

/// The index a moment is sorted by.
pub open spec fn moment_index(m: PacketV) -> u64 {
    match m {
        PacketV::InputMoment { index, .. } => index,
        _ => 0,
    }
}

/// Stable insertion of a moment: it lands after every moment whose index is
/// at most its own, so equal indices keep their packet order.
pub open spec fn insert_moment(sorted: Seq<PacketV>, m: PacketV) -> Seq<PacketV>
    decreases sorted.len(),
{
    if sorted.len() == 0 {
        seq![m]
    } else if moment_index(sorted.last()) <= moment_index(m) {
        sorted.push(m)
    } else {
        insert_moment(sorted.drop_last(), m).push(sorted.last())
    }
}

/// The moments in ascending index order; the sort is stable.
pub open spec fn sort_moments(ms: Seq<PacketV>) -> Seq<PacketV>
    decreases ms.len(),
{
    if ms.len() == 0 {
        Seq::<PacketV>::empty()
    } else {
        insert_moment(sort_moments(ms.drop_last()), ms.last())
    }
}

/// Whether the moments stand in ascending index order.
pub open spec fn sorted_by_index(ms: Seq<PacketV>) -> bool {
    forall|i: int, j: int|
        0 <= i <= j < ms.len() ==> moment_index(#[trigger] ms[i]) <= moment_index(
            #[trigger] ms[j],
        )
}

/// The largest index the insertion can produce: the inserted moment's, or
/// the last (largest) already present.
pub open spec fn insert_top(sorted: Seq<PacketV>, m: PacketV) -> u64 {
    if sorted.len() == 0 {
        moment_index(m)
    } else if moment_index(sorted.last()) >= moment_index(m) {
        moment_index(sorted.last())
    } else {
        moment_index(m)
    }
}

proof fn lemma_insert_moment_sorted(sorted: Seq<PacketV>, m: PacketV)
    requires
        sorted_by_index(sorted),
    ensures
        sorted_by_index(insert_moment(sorted, m)),
        insert_moment(sorted, m).len() == sorted.len() + 1,
        insert_moment(sorted, m).to_multiset() == sorted.to_multiset().insert(m),
        forall|i: int|
            0 <= i < insert_moment(sorted, m).len() ==> moment_index(
                #[trigger] insert_moment(sorted, m)[i],
            ) <= insert_top(sorted, m),
    decreases sorted.len(),
{
    broadcast use vstd::seq_lib::group_to_multiset_ensures;

    let r = insert_moment(sorted, m);
    if sorted.len() == 0 {
        assert(r =~= Seq::<PacketV>::empty().push(m));
        assert(r.to_multiset() =~= sorted.to_multiset().insert(m));
    } else if moment_index(sorted.last()) <= moment_index(m) {
        assert(r == sorted.push(m));
        assert(forall|i: int|
            0 <= i < sorted.len() ==> moment_index(#[trigger] sorted[i]) <= moment_index(
                sorted.last(),
            ));
    } else {
        let head = sorted.drop_last();
        assert(sorted_by_index(head)) by {
            assert(forall|i: int| 0 <= i < head.len() ==> #[trigger] head[i] == sorted[i]);
        }
        lemma_insert_moment_sorted(head, m);
        let inner = insert_moment(head, m);
        assert(r == inner.push(sorted.last()));
        assert(moment_index(sorted.last()) <= insert_top(sorted, m));
        assert(insert_top(head, m) <= moment_index(sorted.last())) by {
            if head.len() > 0 {
                assert(moment_index(head.last()) <= moment_index(sorted.last()));
            }
        }
        assert(sorted_by_index(r)) by {
            assert(forall|i: int| 0 <= i < inner.len() ==> #[trigger] r[i] == inner[i]);
            assert(r.last() == sorted.last());
        }
        assert(head.push(sorted.last()) =~= sorted);
        assert(r.to_multiset() =~= sorted.to_multiset().insert(m)) by {
            assert(inner.to_multiset() == head.to_multiset().insert(m));
            assert(r.to_multiset() == inner.to_multiset().insert(sorted.last()));
            assert(sorted.to_multiset() == head.to_multiset().insert(sorted.last()));
        }
    }
}

/// Law: the moment ordering the script uses really is a sort. The sorted
/// sequence is ascending by index and holds exactly the original moments;
/// the insertion itself is stable, so moments with equal indices keep
/// their packet order.
pub proof fn lemma_sort_moments_sorts(ms: Seq<PacketV>)
    ensures
        sorted_by_index(sort_moments(ms)),
        sort_moments(ms).len() == ms.len(),
        sort_moments(ms).to_multiset() == ms.to_multiset(),
    decreases ms.len(),
{
    broadcast use vstd::seq_lib::group_to_multiset_ensures;

    if ms.len() == 0 {
        assert(sort_moments(ms).to_multiset() =~= ms.to_multiset());
    } else {
        let head = ms.drop_last();
        lemma_sort_moments_sorts(head);
        lemma_insert_moment_sorted(sort_moments(head), ms.last());
        assert(head.push(ms.last()) =~= ms);
        assert(sort_moments(ms).to_multiset() =~= ms.to_multiset()) by {
            assert(ms.to_multiset() == head.to_multiset().insert(ms.last()));
        }
    }
}

/// The hexadecimal digit characters.
pub open spec fn hex_char(d: nat) -> char {
    if d == 0 {
        '0'
    } else if d == 1 {
        '1'
    } else if d == 2 {
        '2'
    } else if d == 3 {
        '3'
    } else if d == 4 {
        '4'
    } else if d == 5 {
        '5'
    } else if d == 6 {
        '6'
    } else if d == 7 {
        '7'
    } else if d == 8 {
        '8'
    } else if d == 9 {
        '9'
    } else if d == 10 {
        'A'
    } else if d == 11 {
        'B'
    } else if d == 12 {
        'C'
    } else if d == 13 {
        'D'
    } else if d == 14 {
        'E'
    } else {
        'F'
    }
}

/// `n` in upper-case hexadecimal, zero-padded to at least `width` digits.
pub open spec fn hex_str(n: nat, width: nat) -> Seq<char>
    decreases n + width,
{
    if n < 16 && width <= 1 {
        seq![hex_char(n)]
    } else {
        hex_str(n / 16, if width == 0 {
            0
        } else {
            (width - 1) as nat
        }) + seq![hex_char(n % 16)]
    }
}

/// One line of the script: the index as eight hex digits, a space, the
/// input value as four hex digits, a newline.
pub open spec fn gbi_line(index: u64, val: u16) -> Seq<char> {
    hex_str(index as nat, 8) + seq![' '] + hex_str(val as nat, 4) + seq!['\n']
}

/// The lines of a one-byte-per-input moment, up to input `j`: each byte
/// inverted and printed against the moment's index.
pub open spec fn gb_upto(index: u64, inputs: Seq<u8>, j: int) -> Seq<char>
    decreases j,
{
    if j <= 0 {
        Seq::<char>::empty()
    } else {
        gb_upto(index, inputs, j - 1) + gbi_line(index, (inputs[j - 1] ^ 0xFF) as u16)
    }
}

/// The lines of a two-bytes-per-input moment, up to input `j`: each pair
/// read big-endian, inverted, and printed against the moment's index; a
/// trailing odd byte is ignored.
pub open spec fn gba_upto(index: u64, inputs: Seq<u8>, j: int) -> Seq<char>
    decreases j,
{
    if j <= 1 {
        Seq::<char>::empty()
    } else {
        gba_upto(index, inputs, j - 2) + gbi_line(
            index,
            crate::wire::combine16(inputs[j - 2], inputs[j - 1]) ^ 0xFFFF,
        )
    }
}

/// The whole text of a moment.
pub open spec fn moment_text(m: PacketV, gba: bool) -> Seq<char> {
    match m {
        PacketV::InputMoment { index, inputs, .. } => if gba {
            gba_upto(index, inputs, 2 * (inputs.len() as int / 2))
        } else {
            gb_upto(index, inputs, inputs.len() as int)
        },
        _ => Seq::<char>::empty(),
    }
}

/// The whole script: each moment's text, in the given order.
pub open spec fn gbi_text(ms: Seq<PacketV>, gba: bool) -> Seq<char>
    decreases ms.len(),
{
    if ms.len() == 0 {
        Seq::<char>::empty()
    } else {
        gbi_text(ms.drop_last(), gba) + moment_text(ms.last(), gba)
    }
}

/// One hexadecimal digit as text.
fn hex_char_str(d: u8) -> (r: &'static str)
    requires
        d < 16,
    ensures
        r@ == seq![hex_char(d as nat)],
{
    proof {
        reveal_strlit("0");
        reveal_strlit("1");
        reveal_strlit("2");
        reveal_strlit("3");
        reveal_strlit("4");
        reveal_strlit("5");
        reveal_strlit("6");
        reveal_strlit("7");
        reveal_strlit("8");
        reveal_strlit("9");
        reveal_strlit("A");
        reveal_strlit("B");
        reveal_strlit("C");
        reveal_strlit("D");
        reveal_strlit("E");
        reveal_strlit("F");
    }
    let r = match d {
        0 => "0",
        1 => "1",
        2 => "2",
        3 => "3",
        4 => "4",
        5 => "5",
        6 => "6",
        7 => "7",
        8 => "8",
        9 => "9",
        10 => "A",
        11 => "B",
        12 => "C",
        13 => "D",
        14 => "E",
        _ => "F",
    };
    proof {
        assert(r@ =~= seq![hex_char(d as nat)]);
    }
    r
}

/// Appends `n` in upper-case hexadecimal, zero-padded to at least `width`
/// digits.
fn append_hex(out: &mut String, n: u64, width: usize)
    ensures
        final(out)@ == old(out)@ + hex_str(n as nat, width as nat),
    decreases n + width,
{
    if n < 16 && width <= 1 {
        let digit = hex_char_str((n % 16) as u8);
        out.append(digit);
    } else {
        let next_width = if width == 0 {
            0
        } else {
            width - 1
        };
        append_hex(out, n / 16, next_width);
        let digit = hex_char_str((n % 16) as u8);
        out.append(digit);
    }
}

/// Appends one line of the script.
fn append_line(out: &mut String, index: u64, val: u16)
    ensures
        final(out)@ == old(out)@ + gbi_line(index, val),
{
    proof {
        reveal_strlit(" ");
        reveal_strlit("\n");
    }
    append_hex(out, index, 8);
    out.append(" ");
    append_hex(out, val as u64, 4);
    out.append("\n");
    proof {
        assert(" "@ =~= seq![' ']);
        assert("\n"@ =~= seq!['\n']);
        assert(out@ =~= old(out)@ + gbi_line(index, val));
    }
}

/// A fresh copy of a byte vector.
fn clone_bytes(v: &Vec<u8>) -> (r: Vec<u8>)
    ensures
        r@ == v@,
{
    let mut out: Vec<u8> = Vec::new();
    let mut i: usize = 0;
    while i < v.len()
        invariant
            i <= v@.len(),
            out@ == v@.subrange(0, i as int),
        decreases v@.len() - i,
    {
        out.push(v[i]);
        proof {
            assert(out@ =~= v@.subrange(0, i as int + 1));
        }
        i = i + 1;
    }
    proof {
        assert(v@.subrange(0, v@.len() as int) =~= v@);
    }
    out
}

/// Stable insertion of a moment into an index-sorted vector.
fn insert_moment_exec(sorted: Vec<InputMoment>, m: InputMoment) -> (r: Vec<InputMoment>)
    ensures
        r@.map_values(|q: InputMoment| pv(Packet::InputMoment(q))) == insert_moment(
            sorted@.map_values(|q: InputMoment| pv(Packet::InputMoment(q))),
            pv(Packet::InputMoment(m)),
        ),
    decreases sorted@.len(),
{
    let ghost sv = sorted@.map_values(|q: InputMoment| pv(Packet::InputMoment(q)));
    let mut sorted = sorted;
    if sorted.len() == 0 {
        let mut r: Vec<InputMoment> = Vec::new();
        r.push(m);
        proof {
            assert(r@.map_values(|q: InputMoment| pv(Packet::InputMoment(q))) =~= seq![
                pv(Packet::InputMoment(m)),
            ]);
        }
        r
    } else {
        let last = sorted.pop().unwrap();
        proof {
            assert(sorted@.map_values(|q: InputMoment| pv(Packet::InputMoment(q)))
                =~= sv.drop_last());
            assert(sv.last() == pv(Packet::InputMoment(last)));
        }
        if last.index <= m.index {
            sorted.push(last);
            sorted.push(m);
            proof {
                assert(sorted@.map_values(|q: InputMoment| pv(Packet::InputMoment(q))) =~= sv.push(
                    pv(Packet::InputMoment(m)),
                ));
            }
            sorted
        } else {
            let mut r = insert_moment_exec(sorted, m);
            r.push(last);
            proof {
                assert(r@.map_values(|q: InputMoment| pv(Packet::InputMoment(q)))
                    =~= insert_moment(sv.drop_last(), pv(Packet::InputMoment(m))).push(sv.last()));
            }
            r
        }
    }
}

impl Gbi {
    /// Projects a TASD file into the Game Boy input script.
    ///
    /// The file's first declared console decides the input width: one byte
    /// per input on Game Boy and Game Boy Color, a big-endian pair on Game
    /// Boy Advance; any other console, or none, is rejected. The moments
    /// are sorted by index (stably) and each input becomes one line.
    pub fn try_from(tasd: TasdFile) -> (r: Result<Gbi, LegacyError>)
        ensures
            ({
                let ps = fv(tasd).packets;
                match first_console(ps) {
                    Option::None => r == Result::<Gbi, LegacyError>::Err(
                        LegacyError::UnsupportedConsole,
                    ),
                    Option::Some(c) => if c == Console::Gb || c == Console::Gbc {
                        &&& r matches Ok(g)
                        &&& g.console_type == console_value(c)
                        &&& g.input_text@ == gbi_text(sort_moments(moments(ps)), false)
                    } else if c == Console::Gba {
                        &&& r matches Ok(g)
                        &&& g.console_type == console_value(c)
                        &&& g.input_text@ == gbi_text(sort_moments(moments(ps)), true)
                    } else {
                        r == Result::<Gbi, LegacyError>::Err(LegacyError::UnsupportedConsole)
                    },
                }
            }),
    {
        let ghost ps = fv(tasd).packets;
        let n_packets = tasd.packets.len();

        // Find the first declared console.
        let mut console: Option<Console> = None;
        let mut i: usize = 0;
        proof {
            assert(ps.subrange(0, ps.len() as int) =~= ps);
        }
        while i < n_packets && console.is_none()
            invariant
                i <= n_packets,
                n_packets == tasd.packets@.len(),
                ps == fv(tasd).packets,
                match console {
                    Option::None => first_console(ps) == first_console(
                        ps.subrange(i as int, ps.len() as int),
                    ),
                    Option::Some(c) => first_console(ps) == Option::Some(c),
                },
            decreases n_packets - i,
        {
            proof {
                assert(ps[i as int] == pv(tasd.packets@[i as int]));
                assert(ps.subrange(i as int, ps.len() as int)[0] == ps[i as int]);
                assert(ps.subrange(i as int, ps.len() as int).drop_first() =~= ps.subrange(
                    i as int + 1,
                    ps.len() as int,
                ));
            }
            match &tasd.packets[i] {
                Packet::ConsoleType(ct) => {
                    console = Some(ct.console);
                },
                _ => {},
            }
            i = i + 1;
        }
        proof {
            if console is None {
                assert(ps.subrange(n_packets as int, ps.len() as int).len() == 0);
            }
        }
        let c = match console {
            Option::Some(c) => c,
            Option::None => {
                return Result::Err(LegacyError::UnsupportedConsole);
            },
        };
        let gba: bool = match c {
            Console::Gb | Console::Gbc => false,
            Console::Gba => true,
            _ => {
                return Result::Err(LegacyError::UnsupportedConsole);
            },
        };

        // Collect the input moments, in packet order.
        let mut ms: Vec<InputMoment> = Vec::new();
        let mut i: usize = 0;
        while i < n_packets
            invariant
                i <= n_packets,
                n_packets == tasd.packets@.len(),
                ps == fv(tasd).packets,
                ms@.map_values(|q: InputMoment| pv(Packet::InputMoment(q))) == moments(
                    ps.subrange(0, i as int),
                ),
            decreases n_packets - i,
        {
            proof {
                assert(ps[i as int] == pv(tasd.packets@[i as int]));
            }
            let ghost before = ms@.map_values(|q: InputMoment| pv(Packet::InputMoment(q)));
            match &tasd.packets[i] {
                Packet::InputMoment(m) => {
                    let copy = InputMoment {
                        port: m.port,
                        hold: m.hold,
                        index_type: m.index_type,
                        index: m.index,
                        inputs: clone_bytes(&m.inputs),
                    };
                    proof {
                        assert(pv(Packet::InputMoment(copy)) == ps[i as int]);
                    }
                    ms.push(copy);
                    proof {
                        assert(ms@.map_values(|q: InputMoment| pv(Packet::InputMoment(q)))
                            =~= before.push(ps[i as int]));
                    }
                },
                _ => {},
            }
            proof {
                assert(ps.subrange(0, i as int + 1).drop_last() =~= ps.subrange(0, i as int));
                assert(ps.subrange(0, i as int + 1).last() == ps[i as int]);
                assert(ms@.map_values(|q: InputMoment| pv(Packet::InputMoment(q))) =~= moments(
                    ps.subrange(0, i as int + 1),
                ));
            }
            i = i + 1;
        }
        proof {
            assert(ps.subrange(0, n_packets as int) =~= ps);
        }

        // Sort the moments by index; the insertion is stable.
        let mut sorted: Vec<InputMoment> = Vec::new();
        let mut i: usize = 0;
        let n_moments = ms.len();
        while i < n_moments
            invariant
                i <= n_moments,
                n_moments == ms@.len(),
                ms@.map_values(|q: InputMoment| pv(Packet::InputMoment(q))) == moments(ps),
                sorted@.map_values(|q: InputMoment| pv(Packet::InputMoment(q))) == sort_moments(
                    moments(ps).subrange(0, i as int),
                ),
            decreases n_moments - i,
        {
            proof {
                assert(moments(ps)[i as int] == pv(Packet::InputMoment(ms@[i as int])));
                assert(moments(ps).subrange(0, i as int + 1).drop_last() =~= moments(
                    ps,
                ).subrange(0, i as int));
                assert(moments(ps).subrange(0, i as int + 1).last() == moments(ps)[i as int]);
            }
            let src = &ms[i];
            let copy = InputMoment {
                port: src.port,
                hold: src.hold,
                index_type: src.index_type,
                index: src.index,
                inputs: clone_bytes(&src.inputs),
            };
            proof {
                assert(pv(Packet::InputMoment(copy)) == moments(ps)[i as int]);
            }
            sorted = insert_moment_exec(sorted, copy);
            i = i + 1;
        }
        proof {
            assert(moments(ps).subrange(0, n_moments as int) =~= moments(ps));
        }
        let ghost sv = sort_moments(moments(ps));

        // Emit one line per input.
        let mut text = String::new();
        let n_sorted = sorted.len();
        let mut i: usize = 0;
        while i < n_sorted
            invariant
                i <= n_sorted,
                n_sorted == sorted@.len(),
                sorted@.map_values(|q: InputMoment| pv(Packet::InputMoment(q))) == sv,
                text@ == gbi_text(sv.subrange(0, i as int), gba),
            decreases n_sorted - i,
        {
            let m = &sorted[i];
            let ghost mv = pv(Packet::InputMoment(sorted@[i as int]));
            let ghost before = text@;
            if gba {
                let mut j: usize = 0;
                let len = m.inputs.len();
                while j < len && len - j >= 2
                    invariant
                        j <= len,
                        j % 2 == 0,
                        len == m.inputs@.len(),
                        mv == pv(Packet::InputMoment(*m)),
                        text@ == before + gba_upto(m.index, m.inputs@, j as int),
                    decreases len - j,
                {
                    let hi = m.inputs[j];
                    let lo = m.inputs[j + 1];
                    let word = (((hi as u16) << 8) | (lo as u16)) ^ 0xFFFF;
                    proof {
                        assert((((hi as u16) << 8) | (lo as u16)) == crate::wire::combine16(
                            hi,
                            lo,
                        ));
                    }
                    append_line(&mut text, m.index, word);
                    proof {
                        assert(text@ =~= before + gba_upto(m.index, m.inputs@, j as int + 2));
                    }
                    j = j + 2;
                }
                proof {
                    assert(j as int == 2 * (m.inputs@.len() as int / 2));
                    assert(text@ == before + moment_text(mv, gba));
                }
            } else {
                let mut j: usize = 0;
                let len = m.inputs.len();
                while j < len
                    invariant
                        j <= len,
                        len == m.inputs@.len(),
                        mv == pv(Packet::InputMoment(*m)),
                        text@ == before + gb_upto(m.index, m.inputs@, j as int),
                    decreases len - j,
                {
                    let b = m.inputs[j];
                    append_line(&mut text, m.index, (b ^ 0xFF) as u16);
                    proof {
                        assert(text@ =~= before + gb_upto(m.index, m.inputs@, j as int + 1));
                    }
                    j = j + 1;
                }
                proof {
                    assert(text@ == before + moment_text(mv, gba));
                }
            }
            proof {
                assert(sv.subrange(0, i as int + 1).drop_last() =~= sv.subrange(0, i as int));
                assert(sv.subrange(0, i as int + 1).last() == sv[i as int]);
                assert(sv[i as int] == mv);
                assert(text@ =~= gbi_text(sv.subrange(0, i as int + 1), gba));
            }
            i = i + 1;
        }
        proof {
            assert(sv.subrange(0, n_sorted as int) =~= sv);
        }
        Result::Ok(Gbi { input_text: text, console_type: c.value() })
    }
}

} // verus!
