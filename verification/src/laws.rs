//! The round-trip laws of the codec: decoding what the encoder emits gives
//! the encoded value back, for every valid packet and every valid file, and
//! an unknown-keyed packet survives a round trip anywhere in a file.

use vstd::prelude::*;
use vstd::utf8::encode_utf8;
use vstd::utf8::encode_utf8_decode_utf8;
use vstd::utf8::encode_utf8_valid_utf8;
use crate::packets::model::PacketV;
use crate::packets::model::MAX_PACKET_DEPTH;
use crate::packets::model::depth_of;
use crate::packets::model::encodable;
use crate::packets::model::key_v;
use crate::packets::model::known_key;
use crate::packets::model::packet_bytes_v;
use crate::packets::model::payload_v;
use crate::packets::model::u8str_seq;
use crate::packets::model::wf_keys;
use crate::packets::model::wf_packet;
use crate::packets::model::words_bytes;
use crate::packets::model::lemma_words_bytes_len;
use crate::packets::attribution_kind_value;
use crate::packets::lemma_attribution_kind_round;
use crate::packets::console_value;
use crate::packets::lemma_console_round;
use crate::packets::console_region_value;
use crate::packets::lemma_console_region_round;
use crate::packets::id_encoding_value;
use crate::packets::lemma_id_encoding_round;
use crate::packets::id_kind_value;
use crate::packets::lemma_id_kind_round;
use crate::packets::init_device_value;
use crate::packets::lemma_init_device_round;
use crate::packets::init_kind_value;
use crate::packets::lemma_init_kind_round;
use crate::packets::moment_index_kind_value;
use crate::packets::lemma_moment_index_kind_round;
use crate::packets::port_kind_value;
use crate::packets::lemma_port_kind_round;
use crate::packets::transition_index_kind_value;
use crate::packets::lemma_transition_index_kind_round;
use crate::packets::transition_kind_value;
use crate::packets::lemma_transition_kind_round;
use crate::packets::decode::DecodeError;
use crate::packets::decode::spec_read_plen;
use crate::packets::decode::spec_read_frame;
use crate::packets::decode::spec_decode_packet;
use crate::packets::decode::spec_decode_unsupported;
use crate::packets::decode::words_of;
use crate::packets::decode::spec_decode_console_type;
use crate::packets::decode::spec_parse_console_type_payload;
use crate::packets::decode::spec_decode_console_region_packet;
use crate::packets::decode::spec_parse_console_region_packet_payload;
use crate::packets::decode::spec_decode_game_title;
use crate::packets::decode::spec_parse_game_title_payload;
use crate::packets::decode::spec_decode_rom_name;
use crate::packets::decode::spec_parse_rom_name_payload;
use crate::packets::decode::spec_decode_attribution;
use crate::packets::decode::spec_parse_attribution_payload;
use crate::packets::decode::spec_decode_category;
use crate::packets::decode::spec_parse_category_payload;
use crate::packets::decode::spec_decode_emulator_name;
use crate::packets::decode::spec_parse_emulator_name_payload;
use crate::packets::decode::spec_decode_emulator_version;
use crate::packets::decode::spec_parse_emulator_version_payload;
use crate::packets::decode::spec_decode_emulator_core;
use crate::packets::decode::spec_parse_emulator_core_payload;
use crate::packets::decode::spec_decode_tas_last_modified;
use crate::packets::decode::spec_parse_tas_last_modified_payload;
use crate::packets::decode::spec_decode_dump_created;
use crate::packets::decode::spec_parse_dump_created_payload;
use crate::packets::decode::spec_decode_dump_last_modified;
use crate::packets::decode::spec_parse_dump_last_modified_payload;
use crate::packets::decode::spec_decode_total_frames;
use crate::packets::decode::spec_parse_total_frames_payload;
use crate::packets::decode::spec_decode_rerecords;
use crate::packets::decode::spec_parse_rerecords_payload;
use crate::packets::decode::spec_decode_source_link;
use crate::packets::decode::spec_parse_source_link_payload;
use crate::packets::decode::spec_decode_blank_frames;
use crate::packets::decode::spec_parse_blank_frames_payload;
use crate::packets::decode::spec_decode_verified;
use crate::packets::decode::spec_parse_verified_payload;
use crate::packets::decode::spec_decode_memory_init;
use crate::packets::decode::spec_parse_memory_init_payload;
use crate::packets::decode::spec_decode_game_identifier;
use crate::packets::decode::spec_parse_game_identifier_payload;
use crate::packets::decode::spec_decode_movie_license;
use crate::packets::decode::spec_parse_movie_license_payload;
use crate::packets::decode::spec_decode_movie_file;
use crate::packets::decode::spec_parse_movie_file_payload;
use crate::packets::decode::spec_decode_port_controller;
use crate::packets::decode::spec_parse_port_controller_payload;
use crate::packets::decode::spec_decode_port_overread;
use crate::packets::decode::spec_parse_port_overread_payload;
use crate::packets::decode::spec_decode_nes_latch_filter;
use crate::packets::decode::spec_parse_nes_latch_filter_payload;
use crate::packets::decode::spec_decode_nes_clock_filter;
use crate::packets::decode::spec_parse_nes_clock_filter_payload;
use crate::packets::decode::spec_decode_nes_game_genie_code;
use crate::packets::decode::spec_parse_nes_game_genie_code_payload;
use crate::packets::decode::spec_decode_snes_latch_filter;
use crate::packets::decode::spec_parse_snes_latch_filter_payload;
use crate::packets::decode::spec_decode_snes_clock_filter;
use crate::packets::decode::spec_parse_snes_clock_filter_payload;
use crate::packets::decode::spec_decode_snes_game_genie_code;
use crate::packets::decode::spec_parse_snes_game_genie_code_payload;
use crate::packets::decode::spec_decode_snes_latch_train;
use crate::packets::decode::spec_parse_snes_latch_train_payload;
use crate::packets::decode::spec_decode_genesis_game_genie_code;
use crate::packets::decode::spec_parse_genesis_game_genie_code_payload;
use crate::packets::decode::spec_decode_input_chunk;
use crate::packets::decode::spec_parse_input_chunk_payload;
use crate::packets::decode::spec_decode_input_moment;
use crate::packets::decode::spec_parse_input_moment_payload;
use crate::packets::decode::spec_decode_transition;
use crate::packets::decode::spec_parse_transition_payload;
use crate::packets::decode::spec_decode_lag_frame_chunk;
use crate::packets::decode::spec_parse_lag_frame_chunk_payload;
use crate::packets::decode::spec_decode_movie_transition;
use crate::packets::decode::spec_parse_movie_transition_payload;
use crate::packets::decode::spec_decode_comment;
use crate::packets::decode::spec_parse_comment_payload;
use crate::packets::decode::spec_decode_experimental;
use crate::packets::decode::spec_parse_experimental_payload;
use crate::packets::decode::spec_decode_unspecified;
use crate::packets::decode::spec_parse_unspecified_payload;
use crate::all_wf;
use crate::file_bytes;
use crate::FileV;
use crate::magic_seq;
use crate::packets_bytes;
use crate::spec_parse_packets;
use crate::wf_file;
use crate::wire::be16;
use crate::wire::be32;
use crate::wire::be64;
use crate::wire::be_val;
use crate::wire::be_var;
use crate::wire::bei16;
use crate::wire::bei64;
use crate::wire::bool_byte;
use crate::wire::combine16;
use crate::wire::framed;
use crate::wire::i16_of_u16;
use crate::wire::i64_of_u64;
use crate::wire::lemma_be16_combine;
use crate::wire::lemma_be32_combine;
use crate::wire::lemma_be64_combine;
use crate::wire::lemma_be_var_len;
use crate::wire::lemma_be_var_val;
use crate::wire::lemma_i16_cast;
use crate::wire::lemma_i64_cast;
use crate::wire::lemma_min_width;
use crate::wire::lemma_plen_seq_len;
use crate::wire::min_width;
use crate::wire::plen_seq;
use crate::wire::u16_of_i16;
use crate::wire::u64_of_i64;

verus! {

/// The bytes `b` stand at position `pos` of the stream `s`.
pub open spec fn bytes_at(s: Seq<u8>, pos: int, b: Seq<u8>) -> bool {
    &&& 0 <= pos
    &&& pos + b.len() <= s.len()
    &&& s.subrange(pos, pos + b.len()) == b
}

/// One byte of a block standing in a stream.
proof fn lemma_at(s: Seq<u8>, pos: int, b: Seq<u8>, a: int)
    requires
        bytes_at(s, pos, b),
        0 <= a < b.len(),
    ensures
        s[pos + a] == b[a],
{
    assert(s.subrange(pos, pos + b.len())[a] == s[pos + a]);
}

/// A slice of a block standing in a stream equals the block's slice.
proof fn lemma_subrange_split(s: Seq<u8>, pos: int, b: Seq<u8>, a: int, c: int)
    requires
        bytes_at(s, pos, b),
        0 <= a <= c <= b.len(),
    ensures
        s.subrange(pos + a, pos + c) == b.subrange(a, c),
{
    assert forall|j: int| 0 <= j < c - a implies s.subrange(pos + a, pos + c)[j] == b.subrange(
        a,
        c,
    )[j] by {
        assert(s.subrange(pos, pos + b.len())[a + j] == s[pos + a + j]);
        assert(s.subrange(pos + a, pos + c)[j] == s[pos + a + j]);
        assert(b.subrange(a, c)[j] == b[a + j]);
    }
    assert(s.subrange(pos + a, pos + c) =~= b.subrange(a, c));
}

/// A length prefix standing in the stream reads back as the length it
/// encodes.
proof fn lemma_plen_complete(s: Seq<u8>, pos: int, n: nat)
    requires
        n <= usize::MAX,
        s.len() <= usize::MAX,
        bytes_at(s, pos, plen_seq(n)),
    ensures
        spec_read_plen(s, pos) == Result::<(usize, usize), DecodeError>::Ok(
            (n as usize, (pos + 1 + min_width(n)) as usize),
        ),
{
    lemma_plen_seq_len(n);
    lemma_min_width(n);
    let w = min_width(n);
    lemma_be_var_len(n, w);
    lemma_be_var_val(n, w);
    let pl = plen_seq(n);
    lemma_at(s, pos, pl, 0);
    assert(pl[0] == w as u8);
    assert(s[pos] != 0);
    lemma_subrange_split(s, pos, pl, 1, pl.len() as int);
    assert(pl.subrange(1, pl.len() as int) =~= be_var(n, w));
    assert(s.subrange(pos + 1, pos + 1 + w) == be_var(n, w));
    assert(be_val(s.subrange(pos + 1, pos + 1 + w)) == n);
}

/// A framed packet standing in the stream reads back as its payload window.
proof fn lemma_frame_complete(s: Seq<u8>, pos: int, k0: u8, k1: u8, payload: Seq<u8>)
    requires
        s.len() <= usize::MAX,
        payload.len() <= usize::MAX,
        bytes_at(s, pos, framed(seq![k0, k1], payload)),
    ensures
        ({
            let ps = pos + 3 + min_width(payload.len() as nat);
            let pe = ps + payload.len();
            &&& spec_read_frame(s, pos, k0, k1) == Result::<(usize, usize), DecodeError>::Ok(
                ((ps) as usize, (pe) as usize),
            )
            &&& s.subrange(ps, pe) == payload
            &&& pe == pos + framed(seq![k0, k1], payload).len()
        }),
{
    let n = payload.len() as nat;
    lemma_plen_seq_len(n);
    let b = framed(seq![k0, k1], payload);
    let pl = plen_seq(n);
    lemma_at(s, pos, b, 0);
    lemma_at(s, pos, b, 1);
    assert(b[0] == k0 && b[1] == k1);
    lemma_subrange_split(s, pos, b, 2, 2 + pl.len() as int);
    assert(b.subrange(2, 2 + pl.len() as int) =~= pl);
    lemma_plen_complete(s, pos + 2, n);
    lemma_subrange_split(s, pos, b, 3 + min_width(n) as int, b.len() as int);
    assert(b.subrange(3 + min_width(n) as int, b.len() as int) =~= payload);
}

/// Reading back the words of a word sequence gives the words.
proof fn lemma_words_of_bytes(ws: Seq<u64>)
    ensures
        words_of(words_bytes(ws)) == ws,
    decreases ws.len(),
{
    lemma_words_bytes_len(ws);
    if ws.len() == 0 {
        assert(words_of(words_bytes(ws)) =~= ws);
    } else {
        let b = words_bytes(ws);
        lemma_words_bytes_len(ws.drop_first());
        assert(b.subrange(0, 8) =~= be64(ws[0]));
        lemma_be64_combine(ws[0]);
        assert(b.subrange(8, b.len() as int) =~= words_bytes(ws.drop_first()));
        lemma_words_of_bytes(ws.drop_first());
        assert(words_of(b) =~= ws);
    }
}

/// An unsupported packet's bytes standing in the stream read back as the
/// same key and payload.
proof fn lemma_unsupported_complete(s: Seq<u8>, pos: int, v: PacketV)
    requires
        s.len() <= usize::MAX,
        v matches PacketV::Unsupported { key, data } && key.len() == 2,
        bytes_at(s, pos, packet_bytes_v(v)),
    ensures
        spec_decode_unsupported(s, pos) == Result::<(PacketV, usize), DecodeError>::Ok(
            (v, (pos + packet_bytes_v(v).len()) as usize),
        ),
{
    match v {
        PacketV::Unsupported { key, data } => {
            let b = packet_bytes_v(v);
            let n = data.len() as nat;
            lemma_plen_seq_len(n);
            let pl = plen_seq(n);
            assert(b == key + pl + data);
            lemma_subrange_split(s, pos, b, 0, 2);
            assert(b.subrange(0, 2) =~= key);
            lemma_subrange_split(s, pos, b, 2, 2 + pl.len() as int);
            assert(b.subrange(2, 2 + pl.len() as int) =~= pl);
            lemma_plen_complete(s, pos + 2, n);
            let q = pos + 3 + min_width(n);
            lemma_subrange_split(s, pos, b, 3 + min_width(n) as int, b.len() as int);
            assert(b.subrange(3 + min_width(n) as int, b.len() as int) =~= data);
        },
        _ => {},
    }
}

/// The bytes of a [`crate::packets::ConsoleType`] packet read back as the value.
proof fn lemma_console_type_complete(s: Seq<u8>, pos: int, v: PacketV)
    requires
        s.len() <= usize::MAX,
        v matches PacketV::ConsoleType { .. },
        encodable(v),
        wf_keys(v),
        bytes_at(s, pos, packet_bytes_v(v)),
    ensures
        spec_decode_console_type(s, pos) == Result::<(PacketV, usize), DecodeError>::Ok(
            (v, (pos + packet_bytes_v(v).len()) as usize),
        ),
{
    match v {
        PacketV::ConsoleType { console, name } => {
            let payload = payload_v(v);
            assert(payload == seq![console_value(console)] + encode_utf8(name));
            assert(payload.len() <= usize::MAX);
            lemma_frame_complete(s, pos, 0x0, 0x1, payload);
            let ps = pos + 3 + min_width(payload.len() as nat);
            let pe = ps + payload.len();
            assert(bytes_at(s, ps, payload));
            lemma_at(s, ps, payload, 0);
            assert(payload[0] == console_value(console));
            lemma_console_round(console);
            lemma_subrange_split(s, ps, payload, 1, payload.len() as int);
            assert(payload.subrange(1, payload.len() as int) =~= encode_utf8(name));
            assert(s.subrange(ps + 1, pe) == encode_utf8(name));
            encode_utf8_valid_utf8(name);
            encode_utf8_decode_utf8(name);
            assert(spec_parse_console_type_payload(s, ps as usize, pe as usize) == Result::<
                (PacketV, usize),
                DecodeError,
            >::Ok((v, pe as usize)));
        },
        _ => {},
    }
}

/// The bytes of a [`crate::packets::ConsoleRegion`] packet read back as the value.
proof fn lemma_console_region_packet_complete(s: Seq<u8>, pos: int, v: PacketV)
    requires
        s.len() <= usize::MAX,
        v matches PacketV::ConsoleRegion { .. },
        encodable(v),
        wf_keys(v),
        bytes_at(s, pos, packet_bytes_v(v)),
    ensures
        spec_decode_console_region_packet(s, pos) == Result::<(PacketV, usize), DecodeError>::Ok(
            (v, (pos + packet_bytes_v(v).len()) as usize),
        ),
{
    match v {
        PacketV::ConsoleRegion { region } => {
            let payload = payload_v(v);
            assert(payload == seq![console_region_value(region)]);
            assert(payload.len() <= usize::MAX);
            lemma_frame_complete(s, pos, 0x0, 0x2, payload);
            let ps = pos + 3 + min_width(payload.len() as nat);
            let pe = ps + payload.len();
            assert(bytes_at(s, ps, payload));
            lemma_at(s, ps, payload, 0);
            assert(payload[0] == console_region_value(region));
            lemma_console_region_round(region);
            assert(spec_parse_console_region_packet_payload(s, ps as usize, pe as usize) == Result::<
                (PacketV, usize),
                DecodeError,
            >::Ok((v, pe as usize)));
        },
        _ => {},
    }
}

/// The bytes of a [`crate::packets::GameTitle`] packet read back as the value.
proof fn lemma_game_title_complete(s: Seq<u8>, pos: int, v: PacketV)
    requires
        s.len() <= usize::MAX,
        v matches PacketV::GameTitle { .. },
        encodable(v),
        wf_keys(v),
        bytes_at(s, pos, packet_bytes_v(v)),
    ensures
        spec_decode_game_title(s, pos) == Result::<(PacketV, usize), DecodeError>::Ok(
            (v, (pos + packet_bytes_v(v).len()) as usize),
        ),
{
    match v {
        PacketV::GameTitle { title } => {
            let payload = payload_v(v);
            assert(payload == encode_utf8(title));
            assert(payload.len() <= usize::MAX);
            lemma_frame_complete(s, pos, 0x0, 0x3, payload);
            let ps = pos + 3 + min_width(payload.len() as nat);
            let pe = ps + payload.len();
            assert(bytes_at(s, ps, payload));
            lemma_subrange_split(s, ps, payload, 0, payload.len() as int);
            assert(payload.subrange(0, payload.len() as int) =~= encode_utf8(title));
            assert(s.subrange(ps + 0, pe) == encode_utf8(title));
            encode_utf8_valid_utf8(title);
            encode_utf8_decode_utf8(title);
            assert(spec_parse_game_title_payload(s, ps as usize, pe as usize) == Result::<
                (PacketV, usize),
                DecodeError,
            >::Ok((v, pe as usize)));
        },
        _ => {},
    }
}

/// The bytes of a [`crate::packets::RomName`] packet read back as the value.
proof fn lemma_rom_name_complete(s: Seq<u8>, pos: int, v: PacketV)
    requires
        s.len() <= usize::MAX,
        v matches PacketV::RomName { .. },
        encodable(v),
        wf_keys(v),
        bytes_at(s, pos, packet_bytes_v(v)),
    ensures
        spec_decode_rom_name(s, pos) == Result::<(PacketV, usize), DecodeError>::Ok(
            (v, (pos + packet_bytes_v(v).len()) as usize),
        ),
{
    match v {
        PacketV::RomName { name } => {
            let payload = payload_v(v);
            assert(payload == encode_utf8(name));
            assert(payload.len() <= usize::MAX);
            lemma_frame_complete(s, pos, 0x0, 0x4, payload);
            let ps = pos + 3 + min_width(payload.len() as nat);
            let pe = ps + payload.len();
            assert(bytes_at(s, ps, payload));
            lemma_subrange_split(s, ps, payload, 0, payload.len() as int);
            assert(payload.subrange(0, payload.len() as int) =~= encode_utf8(name));
            assert(s.subrange(ps + 0, pe) == encode_utf8(name));
            encode_utf8_valid_utf8(name);
            encode_utf8_decode_utf8(name);
            assert(spec_parse_rom_name_payload(s, ps as usize, pe as usize) == Result::<
                (PacketV, usize),
                DecodeError,
            >::Ok((v, pe as usize)));
        },
        _ => {},
    }
}

/// The bytes of a [`crate::packets::Attribution`] packet read back as the value.
proof fn lemma_attribution_complete(s: Seq<u8>, pos: int, v: PacketV)
    requires
        s.len() <= usize::MAX,
        v matches PacketV::Attribution { .. },
        encodable(v),
        wf_keys(v),
        bytes_at(s, pos, packet_bytes_v(v)),
    ensures
        spec_decode_attribution(s, pos) == Result::<(PacketV, usize), DecodeError>::Ok(
            (v, (pos + packet_bytes_v(v).len()) as usize),
        ),
{
    match v {
        PacketV::Attribution { kind, name } => {
            let payload = payload_v(v);
            assert(payload == seq![attribution_kind_value(kind)] + encode_utf8(name));
            assert(payload.len() <= usize::MAX);
            lemma_frame_complete(s, pos, 0x0, 0x5, payload);
            let ps = pos + 3 + min_width(payload.len() as nat);
            let pe = ps + payload.len();
            assert(bytes_at(s, ps, payload));
            lemma_at(s, ps, payload, 0);
            assert(payload[0] == attribution_kind_value(kind));
            lemma_attribution_kind_round(kind);
            lemma_subrange_split(s, ps, payload, 1, payload.len() as int);
            assert(payload.subrange(1, payload.len() as int) =~= encode_utf8(name));
            assert(s.subrange(ps + 1, pe) == encode_utf8(name));
            encode_utf8_valid_utf8(name);
            encode_utf8_decode_utf8(name);
            assert(spec_parse_attribution_payload(s, ps as usize, pe as usize) == Result::<
                (PacketV, usize),
                DecodeError,
            >::Ok((v, pe as usize)));
        },
        _ => {},
    }
}

/// The bytes of a [`crate::packets::Category`] packet read back as the value.
proof fn lemma_category_complete(s: Seq<u8>, pos: int, v: PacketV)
    requires
        s.len() <= usize::MAX,
        v matches PacketV::Category { .. },
        encodable(v),
        wf_keys(v),
        bytes_at(s, pos, packet_bytes_v(v)),
    ensures
        spec_decode_category(s, pos) == Result::<(PacketV, usize), DecodeError>::Ok(
            (v, (pos + packet_bytes_v(v).len()) as usize),
        ),
{
    match v {
        PacketV::Category { category } => {
            let payload = payload_v(v);
            assert(payload == encode_utf8(category));
            assert(payload.len() <= usize::MAX);
            lemma_frame_complete(s, pos, 0x0, 0x6, payload);
            let ps = pos + 3 + min_width(payload.len() as nat);
            let pe = ps + payload.len();
            assert(bytes_at(s, ps, payload));
            lemma_subrange_split(s, ps, payload, 0, payload.len() as int);
            assert(payload.subrange(0, payload.len() as int) =~= encode_utf8(category));
            assert(s.subrange(ps + 0, pe) == encode_utf8(category));
            encode_utf8_valid_utf8(category);
            encode_utf8_decode_utf8(category);
            assert(spec_parse_category_payload(s, ps as usize, pe as usize) == Result::<
                (PacketV, usize),
                DecodeError,
            >::Ok((v, pe as usize)));
        },
        _ => {},
    }
}

/// The bytes of a [`crate::packets::EmulatorName`] packet read back as the value.
proof fn lemma_emulator_name_complete(s: Seq<u8>, pos: int, v: PacketV)
    requires
        s.len() <= usize::MAX,
        v matches PacketV::EmulatorName { .. },
        encodable(v),
        wf_keys(v),
        bytes_at(s, pos, packet_bytes_v(v)),
    ensures
        spec_decode_emulator_name(s, pos) == Result::<(PacketV, usize), DecodeError>::Ok(
            (v, (pos + packet_bytes_v(v).len()) as usize),
        ),
{
    match v {
        PacketV::EmulatorName { name } => {
            let payload = payload_v(v);
            assert(payload == encode_utf8(name));
            assert(payload.len() <= usize::MAX);
            lemma_frame_complete(s, pos, 0x0, 0x7, payload);
            let ps = pos + 3 + min_width(payload.len() as nat);
            let pe = ps + payload.len();
            assert(bytes_at(s, ps, payload));
            lemma_subrange_split(s, ps, payload, 0, payload.len() as int);
            assert(payload.subrange(0, payload.len() as int) =~= encode_utf8(name));
            assert(s.subrange(ps + 0, pe) == encode_utf8(name));
            encode_utf8_valid_utf8(name);
            encode_utf8_decode_utf8(name);
            assert(spec_parse_emulator_name_payload(s, ps as usize, pe as usize) == Result::<
                (PacketV, usize),
                DecodeError,
            >::Ok((v, pe as usize)));
        },
        _ => {},
    }
}

/// The bytes of a [`crate::packets::EmulatorVersion`] packet read back as the value.
proof fn lemma_emulator_version_complete(s: Seq<u8>, pos: int, v: PacketV)
    requires
        s.len() <= usize::MAX,
        v matches PacketV::EmulatorVersion { .. },
        encodable(v),
        wf_keys(v),
        bytes_at(s, pos, packet_bytes_v(v)),
    ensures
        spec_decode_emulator_version(s, pos) == Result::<(PacketV, usize), DecodeError>::Ok(
            (v, (pos + packet_bytes_v(v).len()) as usize),
        ),
{
    match v {
        PacketV::EmulatorVersion { version } => {
            let payload = payload_v(v);
            assert(payload == encode_utf8(version));
            assert(payload.len() <= usize::MAX);
            lemma_frame_complete(s, pos, 0x0, 0x8, payload);
            let ps = pos + 3 + min_width(payload.len() as nat);
            let pe = ps + payload.len();
            assert(bytes_at(s, ps, payload));
            lemma_subrange_split(s, ps, payload, 0, payload.len() as int);
            assert(payload.subrange(0, payload.len() as int) =~= encode_utf8(version));
            assert(s.subrange(ps + 0, pe) == encode_utf8(version));
            encode_utf8_valid_utf8(version);
            encode_utf8_decode_utf8(version);
            assert(spec_parse_emulator_version_payload(s, ps as usize, pe as usize) == Result::<
                (PacketV, usize),
                DecodeError,
            >::Ok((v, pe as usize)));
        },
        _ => {},
    }
}

/// The bytes of a [`crate::packets::EmulatorCore`] packet read back as the value.
proof fn lemma_emulator_core_complete(s: Seq<u8>, pos: int, v: PacketV)
    requires
        s.len() <= usize::MAX,
        v matches PacketV::EmulatorCore { .. },
        encodable(v),
        wf_keys(v),
        bytes_at(s, pos, packet_bytes_v(v)),
    ensures
        spec_decode_emulator_core(s, pos) == Result::<(PacketV, usize), DecodeError>::Ok(
            (v, (pos + packet_bytes_v(v).len()) as usize),
        ),
{
    match v {
        PacketV::EmulatorCore { core } => {
            let payload = payload_v(v);
            assert(payload == encode_utf8(core));
            assert(payload.len() <= usize::MAX);
            lemma_frame_complete(s, pos, 0x0, 0x9, payload);
            let ps = pos + 3 + min_width(payload.len() as nat);
            let pe = ps + payload.len();
            assert(bytes_at(s, ps, payload));
            lemma_subrange_split(s, ps, payload, 0, payload.len() as int);
            assert(payload.subrange(0, payload.len() as int) =~= encode_utf8(core));
            assert(s.subrange(ps + 0, pe) == encode_utf8(core));
            encode_utf8_valid_utf8(core);
            encode_utf8_decode_utf8(core);
            assert(spec_parse_emulator_core_payload(s, ps as usize, pe as usize) == Result::<
                (PacketV, usize),
                DecodeError,
            >::Ok((v, pe as usize)));
        },
        _ => {},
    }
}

/// The bytes of a [`crate::packets::TasLastModified`] packet read back as the value.
proof fn lemma_tas_last_modified_complete(s: Seq<u8>, pos: int, v: PacketV)
    requires
        s.len() <= usize::MAX,
        v matches PacketV::TasLastModified { .. },
        encodable(v),
        wf_keys(v),
        bytes_at(s, pos, packet_bytes_v(v)),
    ensures
        spec_decode_tas_last_modified(s, pos) == Result::<(PacketV, usize), DecodeError>::Ok(
            (v, (pos + packet_bytes_v(v).len()) as usize),
        ),
{
    match v {
        PacketV::TasLastModified { timestamp } => {
            let payload = payload_v(v);
            assert(payload == bei64(timestamp));
            assert(payload.len() <= usize::MAX);
            lemma_frame_complete(s, pos, 0x0, 0xa, payload);
            let ps = pos + 3 + min_width(payload.len() as nat);
            let pe = ps + payload.len();
            assert(bytes_at(s, ps, payload));
            lemma_subrange_split(s, ps, payload, 0, 8);
            assert(payload.subrange(0, 8) =~= be64(u64_of_i64(timestamp)));
            lemma_be64_combine(u64_of_i64(timestamp));
            lemma_i64_cast(timestamp);
            assert(spec_parse_tas_last_modified_payload(s, ps as usize, pe as usize) == Result::<
                (PacketV, usize),
                DecodeError,
            >::Ok((v, pe as usize)));
        },
        _ => {},
    }
}

/// The bytes of a [`crate::packets::DumpCreated`] packet read back as the value.
proof fn lemma_dump_created_complete(s: Seq<u8>, pos: int, v: PacketV)
    requires
        s.len() <= usize::MAX,
        v matches PacketV::DumpCreated { .. },
        encodable(v),
        wf_keys(v),
        bytes_at(s, pos, packet_bytes_v(v)),
    ensures
        spec_decode_dump_created(s, pos) == Result::<(PacketV, usize), DecodeError>::Ok(
            (v, (pos + packet_bytes_v(v).len()) as usize),
        ),
{
    match v {
        PacketV::DumpCreated { timestamp } => {
            let payload = payload_v(v);
            assert(payload == bei64(timestamp));
            assert(payload.len() <= usize::MAX);
            lemma_frame_complete(s, pos, 0x0, 0xb, payload);
            let ps = pos + 3 + min_width(payload.len() as nat);
            let pe = ps + payload.len();
            assert(bytes_at(s, ps, payload));
            lemma_subrange_split(s, ps, payload, 0, 8);
            assert(payload.subrange(0, 8) =~= be64(u64_of_i64(timestamp)));
            lemma_be64_combine(u64_of_i64(timestamp));
            lemma_i64_cast(timestamp);
            assert(spec_parse_dump_created_payload(s, ps as usize, pe as usize) == Result::<
                (PacketV, usize),
                DecodeError,
            >::Ok((v, pe as usize)));
        },
        _ => {},
    }
}

/// The bytes of a [`crate::packets::DumpLastModified`] packet read back as the value.
proof fn lemma_dump_last_modified_complete(s: Seq<u8>, pos: int, v: PacketV)
    requires
        s.len() <= usize::MAX,
        v matches PacketV::DumpLastModified { .. },
        encodable(v),
        wf_keys(v),
        bytes_at(s, pos, packet_bytes_v(v)),
    ensures
        spec_decode_dump_last_modified(s, pos) == Result::<(PacketV, usize), DecodeError>::Ok(
            (v, (pos + packet_bytes_v(v).len()) as usize),
        ),
{
    match v {
        PacketV::DumpLastModified { timestamp } => {
            let payload = payload_v(v);
            assert(payload == bei64(timestamp));
            assert(payload.len() <= usize::MAX);
            lemma_frame_complete(s, pos, 0x0, 0xc, payload);
            let ps = pos + 3 + min_width(payload.len() as nat);
            let pe = ps + payload.len();
            assert(bytes_at(s, ps, payload));
            lemma_subrange_split(s, ps, payload, 0, 8);
            assert(payload.subrange(0, 8) =~= be64(u64_of_i64(timestamp)));
            lemma_be64_combine(u64_of_i64(timestamp));
            lemma_i64_cast(timestamp);
            assert(spec_parse_dump_last_modified_payload(s, ps as usize, pe as usize) == Result::<
                (PacketV, usize),
                DecodeError,
            >::Ok((v, pe as usize)));
        },
        _ => {},
    }
}

/// The bytes of a [`crate::packets::TotalFrames`] packet read back as the value.
proof fn lemma_total_frames_complete(s: Seq<u8>, pos: int, v: PacketV)
    requires
        s.len() <= usize::MAX,
        v matches PacketV::TotalFrames { .. },
        encodable(v),
        wf_keys(v),
        bytes_at(s, pos, packet_bytes_v(v)),
    ensures
        spec_decode_total_frames(s, pos) == Result::<(PacketV, usize), DecodeError>::Ok(
            (v, (pos + packet_bytes_v(v).len()) as usize),
        ),
{
    match v {
        PacketV::TotalFrames { frames } => {
            let payload = payload_v(v);
            assert(payload == be32(frames));
            assert(payload.len() <= usize::MAX);
            lemma_frame_complete(s, pos, 0x0, 0xd, payload);
            let ps = pos + 3 + min_width(payload.len() as nat);
            let pe = ps + payload.len();
            assert(bytes_at(s, ps, payload));
            lemma_at(s, ps, payload, 0);
            assert(payload[0] == be32(frames)[0]);
            lemma_at(s, ps, payload, 1);
            assert(payload[1] == be32(frames)[1]);
            lemma_at(s, ps, payload, 2);
            assert(payload[2] == be32(frames)[2]);
            lemma_at(s, ps, payload, 3);
            assert(payload[3] == be32(frames)[3]);
            lemma_be32_combine(frames);
            assert(spec_parse_total_frames_payload(s, ps as usize, pe as usize) == Result::<
                (PacketV, usize),
                DecodeError,
            >::Ok((v, pe as usize)));
        },
        _ => {},
    }
}

/// The bytes of a [`crate::packets::Rerecords`] packet read back as the value.
proof fn lemma_rerecords_complete(s: Seq<u8>, pos: int, v: PacketV)
    requires
        s.len() <= usize::MAX,
        v matches PacketV::Rerecords { .. },
        encodable(v),
        wf_keys(v),
        bytes_at(s, pos, packet_bytes_v(v)),
    ensures
        spec_decode_rerecords(s, pos) == Result::<(PacketV, usize), DecodeError>::Ok(
            (v, (pos + packet_bytes_v(v).len()) as usize),
        ),
{
    match v {
        PacketV::Rerecords { rerecords } => {
            let payload = payload_v(v);
            assert(payload == be32(rerecords));
            assert(payload.len() <= usize::MAX);
            lemma_frame_complete(s, pos, 0x0, 0xe, payload);
            let ps = pos + 3 + min_width(payload.len() as nat);
            let pe = ps + payload.len();
            assert(bytes_at(s, ps, payload));
            lemma_at(s, ps, payload, 0);
            assert(payload[0] == be32(rerecords)[0]);
            lemma_at(s, ps, payload, 1);
            assert(payload[1] == be32(rerecords)[1]);
            lemma_at(s, ps, payload, 2);
            assert(payload[2] == be32(rerecords)[2]);
            lemma_at(s, ps, payload, 3);
            assert(payload[3] == be32(rerecords)[3]);
            lemma_be32_combine(rerecords);
            assert(spec_parse_rerecords_payload(s, ps as usize, pe as usize) == Result::<
                (PacketV, usize),
                DecodeError,
            >::Ok((v, pe as usize)));
        },
        _ => {},
    }
}

/// The bytes of a [`crate::packets::SourceLink`] packet read back as the value.
proof fn lemma_source_link_complete(s: Seq<u8>, pos: int, v: PacketV)
    requires
        s.len() <= usize::MAX,
        v matches PacketV::SourceLink { .. },
        encodable(v),
        wf_keys(v),
        bytes_at(s, pos, packet_bytes_v(v)),
    ensures
        spec_decode_source_link(s, pos) == Result::<(PacketV, usize), DecodeError>::Ok(
            (v, (pos + packet_bytes_v(v).len()) as usize),
        ),
{
    match v {
        PacketV::SourceLink { link } => {
            let payload = payload_v(v);
            assert(payload == encode_utf8(link));
            assert(payload.len() <= usize::MAX);
            lemma_frame_complete(s, pos, 0x0, 0xf, payload);
            let ps = pos + 3 + min_width(payload.len() as nat);
            let pe = ps + payload.len();
            assert(bytes_at(s, ps, payload));
            lemma_subrange_split(s, ps, payload, 0, payload.len() as int);
            assert(payload.subrange(0, payload.len() as int) =~= encode_utf8(link));
            assert(s.subrange(ps + 0, pe) == encode_utf8(link));
            encode_utf8_valid_utf8(link);
            encode_utf8_decode_utf8(link);
            assert(spec_parse_source_link_payload(s, ps as usize, pe as usize) == Result::<
                (PacketV, usize),
                DecodeError,
            >::Ok((v, pe as usize)));
        },
        _ => {},
    }
}

/// The bytes of a [`crate::packets::BlankFrames`] packet read back as the value.
proof fn lemma_blank_frames_complete(s: Seq<u8>, pos: int, v: PacketV)
    requires
        s.len() <= usize::MAX,
        v matches PacketV::BlankFrames { .. },
        encodable(v),
        wf_keys(v),
        bytes_at(s, pos, packet_bytes_v(v)),
    ensures
        spec_decode_blank_frames(s, pos) == Result::<(PacketV, usize), DecodeError>::Ok(
            (v, (pos + packet_bytes_v(v).len()) as usize),
        ),
{
    match v {
        PacketV::BlankFrames { frames } => {
            let payload = payload_v(v);
            assert(payload == bei16(frames));
            assert(payload.len() <= usize::MAX);
            lemma_frame_complete(s, pos, 0x0, 0x10, payload);
            let ps = pos + 3 + min_width(payload.len() as nat);
            let pe = ps + payload.len();
            assert(bytes_at(s, ps, payload));
            lemma_at(s, ps, payload, 0);
            assert(payload[0] == be16(u16_of_i16(frames))[0]);
            lemma_at(s, ps, payload, 1);
            assert(payload[1] == be16(u16_of_i16(frames))[1]);
            lemma_be16_combine(u16_of_i16(frames));
            lemma_i16_cast(frames);
            assert(spec_parse_blank_frames_payload(s, ps as usize, pe as usize) == Result::<
                (PacketV, usize),
                DecodeError,
            >::Ok((v, pe as usize)));
        },
        _ => {},
    }
}

/// The bytes of a [`crate::packets::Verified`] packet read back as the value.
proof fn lemma_verified_complete(s: Seq<u8>, pos: int, v: PacketV)
    requires
        s.len() <= usize::MAX,
        v matches PacketV::Verified { .. },
        encodable(v),
        wf_keys(v),
        bytes_at(s, pos, packet_bytes_v(v)),
    ensures
        spec_decode_verified(s, pos) == Result::<(PacketV, usize), DecodeError>::Ok(
            (v, (pos + packet_bytes_v(v).len()) as usize),
        ),
{
    match v {
        PacketV::Verified { verified } => {
            let payload = payload_v(v);
            assert(payload == seq![bool_byte(verified)]);
            assert(payload.len() <= usize::MAX);
            lemma_frame_complete(s, pos, 0x0, 0x11, payload);
            let ps = pos + 3 + min_width(payload.len() as nat);
            let pe = ps + payload.len();
            assert(bytes_at(s, ps, payload));
            lemma_at(s, ps, payload, 0);
            assert(payload[0] == bool_byte(verified));
            if verified {
                assert(s[ps + 0] == 1);
            } else {
                assert(s[ps + 0] == 0);
            }
            assert(spec_parse_verified_payload(s, ps as usize, pe as usize) == Result::<
                (PacketV, usize),
                DecodeError,
            >::Ok((v, pe as usize)));
        },
        _ => {},
    }
}

/// The bytes of a [`crate::packets::MovieLicense`] packet read back as the value.
proof fn lemma_movie_license_complete(s: Seq<u8>, pos: int, v: PacketV)
    requires
        s.len() <= usize::MAX,
        v matches PacketV::MovieLicense { .. },
        encodable(v),
        wf_keys(v),
        bytes_at(s, pos, packet_bytes_v(v)),
    ensures
        spec_decode_movie_license(s, pos) == Result::<(PacketV, usize), DecodeError>::Ok(
            (v, (pos + packet_bytes_v(v).len()) as usize),
        ),
{
    match v {
        PacketV::MovieLicense { license } => {
            let payload = payload_v(v);
            assert(payload == encode_utf8(license));
            assert(payload.len() <= usize::MAX);
            lemma_frame_complete(s, pos, 0x0, 0x14, payload);
            let ps = pos + 3 + min_width(payload.len() as nat);
            let pe = ps + payload.len();
            assert(bytes_at(s, ps, payload));
            lemma_subrange_split(s, ps, payload, 0, payload.len() as int);
            assert(payload.subrange(0, payload.len() as int) =~= encode_utf8(license));
            assert(s.subrange(ps + 0, pe) == encode_utf8(license));
            encode_utf8_valid_utf8(license);
            encode_utf8_decode_utf8(license);
            assert(spec_parse_movie_license_payload(s, ps as usize, pe as usize) == Result::<
                (PacketV, usize),
                DecodeError,
            >::Ok((v, pe as usize)));
        },
        _ => {},
    }
}

/// The bytes of a [`crate::packets::PortController`] packet read back as the value.
proof fn lemma_port_controller_complete(s: Seq<u8>, pos: int, v: PacketV)
    requires
        s.len() <= usize::MAX,
        v matches PacketV::PortController { .. },
        encodable(v),
        wf_keys(v),
        bytes_at(s, pos, packet_bytes_v(v)),
    ensures
        spec_decode_port_controller(s, pos) == Result::<(PacketV, usize), DecodeError>::Ok(
            (v, (pos + packet_bytes_v(v).len()) as usize),
        ),
{
    match v {
        PacketV::PortController { port, kind } => {
            let payload = payload_v(v);
            assert(payload == seq![port] + be16(port_kind_value(kind)));
            assert(payload.len() <= usize::MAX);
            lemma_frame_complete(s, pos, 0x0, 0xf0, payload);
            let ps = pos + 3 + min_width(payload.len() as nat);
            let pe = ps + payload.len();
            assert(bytes_at(s, ps, payload));
            lemma_at(s, ps, payload, 0);
            assert(payload[0] == port);
            lemma_at(s, ps, payload, 1);
            assert(payload[1] == be16(port_kind_value(kind))[0]);
            lemma_at(s, ps, payload, 2);
            assert(payload[2] == be16(port_kind_value(kind))[1]);
            lemma_be16_combine(port_kind_value(kind));
            lemma_port_kind_round(kind);
            assert(spec_parse_port_controller_payload(s, ps as usize, pe as usize) == Result::<
                (PacketV, usize),
                DecodeError,
            >::Ok((v, pe as usize)));
        },
        _ => {},
    }
}

/// The bytes of a [`crate::packets::PortOverread`] packet read back as the value.
proof fn lemma_port_overread_complete(s: Seq<u8>, pos: int, v: PacketV)
    requires
        s.len() <= usize::MAX,
        v matches PacketV::PortOverread { .. },
        encodable(v),
        wf_keys(v),
        bytes_at(s, pos, packet_bytes_v(v)),
    ensures
        spec_decode_port_overread(s, pos) == Result::<(PacketV, usize), DecodeError>::Ok(
            (v, (pos + packet_bytes_v(v).len()) as usize),
        ),
{
    match v {
        PacketV::PortOverread { port, high } => {
            let payload = payload_v(v);
            assert(payload == seq![port] + seq![bool_byte(high)]);
            assert(payload.len() <= usize::MAX);
            lemma_frame_complete(s, pos, 0x0, 0xf1, payload);
            let ps = pos + 3 + min_width(payload.len() as nat);
            let pe = ps + payload.len();
            assert(bytes_at(s, ps, payload));
            lemma_at(s, ps, payload, 0);
            assert(payload[0] == port);
            lemma_at(s, ps, payload, 1);
            assert(payload[1] == bool_byte(high));
            if high {
                assert(s[ps + 1] == 1);
            } else {
                assert(s[ps + 1] == 0);
            }
            assert(spec_parse_port_overread_payload(s, ps as usize, pe as usize) == Result::<
                (PacketV, usize),
                DecodeError,
            >::Ok((v, pe as usize)));
        },
        _ => {},
    }
}

/// The bytes of a [`crate::packets::NesLatchFilter`] packet read back as the value.
proof fn lemma_nes_latch_filter_complete(s: Seq<u8>, pos: int, v: PacketV)
    requires
        s.len() <= usize::MAX,
        v matches PacketV::NesLatchFilter { .. },
        encodable(v),
        wf_keys(v),
        bytes_at(s, pos, packet_bytes_v(v)),
    ensures
        spec_decode_nes_latch_filter(s, pos) == Result::<(PacketV, usize), DecodeError>::Ok(
            (v, (pos + packet_bytes_v(v).len()) as usize),
        ),
{
    match v {
        PacketV::NesLatchFilter { time } => {
            let payload = payload_v(v);
            assert(payload == be16(time));
            assert(payload.len() <= usize::MAX);
            lemma_frame_complete(s, pos, 0x1, 0x1, payload);
            let ps = pos + 3 + min_width(payload.len() as nat);
            let pe = ps + payload.len();
            assert(bytes_at(s, ps, payload));
            lemma_at(s, ps, payload, 0);
            assert(payload[0] == be16(time)[0]);
            lemma_at(s, ps, payload, 1);
            assert(payload[1] == be16(time)[1]);
            lemma_be16_combine(time);
            assert(spec_parse_nes_latch_filter_payload(s, ps as usize, pe as usize) == Result::<
                (PacketV, usize),
                DecodeError,
            >::Ok((v, pe as usize)));
        },
        _ => {},
    }
}

/// The bytes of a [`crate::packets::NesClockFilter`] packet read back as the value.
proof fn lemma_nes_clock_filter_complete(s: Seq<u8>, pos: int, v: PacketV)
    requires
        s.len() <= usize::MAX,
        v matches PacketV::NesClockFilter { .. },
        encodable(v),
        wf_keys(v),
        bytes_at(s, pos, packet_bytes_v(v)),
    ensures
        spec_decode_nes_clock_filter(s, pos) == Result::<(PacketV, usize), DecodeError>::Ok(
            (v, (pos + packet_bytes_v(v).len()) as usize),
        ),
{
    match v {
        PacketV::NesClockFilter { time } => {
            let payload = payload_v(v);
            assert(payload == seq![time]);
            assert(payload.len() <= usize::MAX);
            lemma_frame_complete(s, pos, 0x1, 0x2, payload);
            let ps = pos + 3 + min_width(payload.len() as nat);
            let pe = ps + payload.len();
            assert(bytes_at(s, ps, payload));
            lemma_at(s, ps, payload, 0);
            assert(payload[0] == time);
            assert(spec_parse_nes_clock_filter_payload(s, ps as usize, pe as usize) == Result::<
                (PacketV, usize),
                DecodeError,
            >::Ok((v, pe as usize)));
        },
        _ => {},
    }
}

/// The bytes of a [`crate::packets::NesGameGenieCode`] packet read back as the value.
proof fn lemma_nes_game_genie_code_complete(s: Seq<u8>, pos: int, v: PacketV)
    requires
        s.len() <= usize::MAX,
        v matches PacketV::NesGameGenieCode { .. },
        encodable(v),
        wf_keys(v),
        bytes_at(s, pos, packet_bytes_v(v)),
    ensures
        spec_decode_nes_game_genie_code(s, pos) == Result::<(PacketV, usize), DecodeError>::Ok(
            (v, (pos + packet_bytes_v(v).len()) as usize),
        ),
{
    match v {
        PacketV::NesGameGenieCode { code } => {
            let payload = payload_v(v);
            assert(payload == encode_utf8(code));
            assert(payload.len() <= usize::MAX);
            lemma_frame_complete(s, pos, 0x1, 0x4, payload);
            let ps = pos + 3 + min_width(payload.len() as nat);
            let pe = ps + payload.len();
            assert(bytes_at(s, ps, payload));
            lemma_subrange_split(s, ps, payload, 0, payload.len() as int);
            assert(payload.subrange(0, payload.len() as int) =~= encode_utf8(code));
            assert(s.subrange(ps + 0, pe) == encode_utf8(code));
            encode_utf8_valid_utf8(code);
            encode_utf8_decode_utf8(code);
            assert(spec_parse_nes_game_genie_code_payload(s, ps as usize, pe as usize) == Result::<
                (PacketV, usize),
                DecodeError,
            >::Ok((v, pe as usize)));
        },
        _ => {},
    }
}

/// The bytes of a [`crate::packets::SnesLatchFilter`] packet read back as the value.
proof fn lemma_snes_latch_filter_complete(s: Seq<u8>, pos: int, v: PacketV)
    requires
        s.len() <= usize::MAX,
        v matches PacketV::SnesLatchFilter { .. },
        encodable(v),
        wf_keys(v),
        bytes_at(s, pos, packet_bytes_v(v)),
    ensures
        spec_decode_snes_latch_filter(s, pos) == Result::<(PacketV, usize), DecodeError>::Ok(
            (v, (pos + packet_bytes_v(v).len()) as usize),
        ),
{
    match v {
        PacketV::SnesLatchFilter { time } => {
            let payload = payload_v(v);
            assert(payload == be16(time));
            assert(payload.len() <= usize::MAX);
            lemma_frame_complete(s, pos, 0x2, 0x1, payload);
            let ps = pos + 3 + min_width(payload.len() as nat);
            let pe = ps + payload.len();
            assert(bytes_at(s, ps, payload));
            lemma_at(s, ps, payload, 0);
            assert(payload[0] == be16(time)[0]);
            lemma_at(s, ps, payload, 1);
            assert(payload[1] == be16(time)[1]);
            lemma_be16_combine(time);
            assert(spec_parse_snes_latch_filter_payload(s, ps as usize, pe as usize) == Result::<
                (PacketV, usize),
                DecodeError,
            >::Ok((v, pe as usize)));
        },
        _ => {},
    }
}

/// The bytes of a [`crate::packets::SnesClockFilter`] packet read back as the value.
proof fn lemma_snes_clock_filter_complete(s: Seq<u8>, pos: int, v: PacketV)
    requires
        s.len() <= usize::MAX,
        v matches PacketV::SnesClockFilter { .. },
        encodable(v),
        wf_keys(v),
        bytes_at(s, pos, packet_bytes_v(v)),
    ensures
        spec_decode_snes_clock_filter(s, pos) == Result::<(PacketV, usize), DecodeError>::Ok(
            (v, (pos + packet_bytes_v(v).len()) as usize),
        ),
{
    match v {
        PacketV::SnesClockFilter { time } => {
            let payload = payload_v(v);
            assert(payload == seq![time]);
            assert(payload.len() <= usize::MAX);
            lemma_frame_complete(s, pos, 0x2, 0x2, payload);
            let ps = pos + 3 + min_width(payload.len() as nat);
            let pe = ps + payload.len();
            assert(bytes_at(s, ps, payload));
            lemma_at(s, ps, payload, 0);
            assert(payload[0] == time);
            assert(spec_parse_snes_clock_filter_payload(s, ps as usize, pe as usize) == Result::<
                (PacketV, usize),
                DecodeError,
            >::Ok((v, pe as usize)));
        },
        _ => {},
    }
}

/// The bytes of a [`crate::packets::SnesGameGenieCode`] packet read back as the value.
proof fn lemma_snes_game_genie_code_complete(s: Seq<u8>, pos: int, v: PacketV)
    requires
        s.len() <= usize::MAX,
        v matches PacketV::SnesGameGenieCode { .. },
        encodable(v),
        wf_keys(v),
        bytes_at(s, pos, packet_bytes_v(v)),
    ensures
        spec_decode_snes_game_genie_code(s, pos) == Result::<(PacketV, usize), DecodeError>::Ok(
            (v, (pos + packet_bytes_v(v).len()) as usize),
        ),
{
    match v {
        PacketV::SnesGameGenieCode { code } => {
            let payload = payload_v(v);
            assert(payload == encode_utf8(code));
            assert(payload.len() <= usize::MAX);
            lemma_frame_complete(s, pos, 0x2, 0x4, payload);
            let ps = pos + 3 + min_width(payload.len() as nat);
            let pe = ps + payload.len();
            assert(bytes_at(s, ps, payload));
            lemma_subrange_split(s, ps, payload, 0, payload.len() as int);
            assert(payload.subrange(0, payload.len() as int) =~= encode_utf8(code));
            assert(s.subrange(ps + 0, pe) == encode_utf8(code));
            encode_utf8_valid_utf8(code);
            encode_utf8_decode_utf8(code);
            assert(spec_parse_snes_game_genie_code_payload(s, ps as usize, pe as usize) == Result::<
                (PacketV, usize),
                DecodeError,
            >::Ok((v, pe as usize)));
        },
        _ => {},
    }
}

/// The bytes of a [`crate::packets::SnesLatchTrain`] packet read back as the value.
proof fn lemma_snes_latch_train_complete(s: Seq<u8>, pos: int, v: PacketV)
    requires
        s.len() <= usize::MAX,
        v matches PacketV::SnesLatchTrain { .. },
        encodable(v),
        wf_keys(v),
        bytes_at(s, pos, packet_bytes_v(v)),
    ensures
        spec_decode_snes_latch_train(s, pos) == Result::<(PacketV, usize), DecodeError>::Ok(
            (v, (pos + packet_bytes_v(v).len()) as usize),
        ),
{
    match v {
        PacketV::SnesLatchTrain { latch_trains } => {
            let payload = payload_v(v);
            assert(payload == words_bytes(latch_trains));
            assert(payload.len() <= usize::MAX);
            lemma_frame_complete(s, pos, 0x2, 0x5, payload);
            let ps = pos + 3 + min_width(payload.len() as nat);
            let pe = ps + payload.len();
            assert(bytes_at(s, ps, payload));
            lemma_words_bytes_len(latch_trains);
            lemma_subrange_split(s, ps, payload, 0, payload.len() as int);
            assert(payload.subrange(0, payload.len() as int) =~= words_bytes(latch_trains));
            assert(s.subrange(ps + 0, pe) == words_bytes(latch_trains));
            lemma_words_of_bytes(latch_trains);
            assert(spec_parse_snes_latch_train_payload(s, ps as usize, pe as usize) == Result::<
                (PacketV, usize),
                DecodeError,
            >::Ok((v, pe as usize)));
        },
        _ => {},
    }
}

/// The bytes of a [`crate::packets::GenesisGameGenieCode`] packet read back as the value.
proof fn lemma_genesis_game_genie_code_complete(s: Seq<u8>, pos: int, v: PacketV)
    requires
        s.len() <= usize::MAX,
        v matches PacketV::GenesisGameGenieCode { .. },
        encodable(v),
        wf_keys(v),
        bytes_at(s, pos, packet_bytes_v(v)),
    ensures
        spec_decode_genesis_game_genie_code(s, pos) == Result::<(PacketV, usize), DecodeError>::Ok(
            (v, (pos + packet_bytes_v(v).len()) as usize),
        ),
{
    match v {
        PacketV::GenesisGameGenieCode { code } => {
            let payload = payload_v(v);
            assert(payload == encode_utf8(code));
            assert(payload.len() <= usize::MAX);
            lemma_frame_complete(s, pos, 0x8, 0x4, payload);
            let ps = pos + 3 + min_width(payload.len() as nat);
            let pe = ps + payload.len();
            assert(bytes_at(s, ps, payload));
            lemma_subrange_split(s, ps, payload, 0, payload.len() as int);
            assert(payload.subrange(0, payload.len() as int) =~= encode_utf8(code));
            assert(s.subrange(ps + 0, pe) == encode_utf8(code));
            encode_utf8_valid_utf8(code);
            encode_utf8_decode_utf8(code);
            assert(spec_parse_genesis_game_genie_code_payload(s, ps as usize, pe as usize) == Result::<
                (PacketV, usize),
                DecodeError,
            >::Ok((v, pe as usize)));
        },
        _ => {},
    }
}

/// The bytes of a [`crate::packets::InputChunk`] packet read back as the value.
proof fn lemma_input_chunk_complete(s: Seq<u8>, pos: int, v: PacketV)
    requires
        s.len() <= usize::MAX,
        v matches PacketV::InputChunk { .. },
        encodable(v),
        wf_keys(v),
        bytes_at(s, pos, packet_bytes_v(v)),
    ensures
        spec_decode_input_chunk(s, pos) == Result::<(PacketV, usize), DecodeError>::Ok(
            (v, (pos + packet_bytes_v(v).len()) as usize),
        ),
{
    match v {
        PacketV::InputChunk { port, inputs } => {
            let payload = payload_v(v);
            assert(payload == seq![port] + inputs);
            assert(payload.len() <= usize::MAX);
            lemma_frame_complete(s, pos, 0xfe, 0x1, payload);
            let ps = pos + 3 + min_width(payload.len() as nat);
            let pe = ps + payload.len();
            assert(bytes_at(s, ps, payload));
            lemma_at(s, ps, payload, 0);
            assert(payload[0] == port);
            lemma_subrange_split(s, ps, payload, 1, payload.len() as int);
            assert(payload.subrange(1, payload.len() as int) =~= inputs);
            assert(s.subrange(ps + 1, pe) == inputs);
            assert(spec_parse_input_chunk_payload(s, ps as usize, pe as usize) == Result::<
                (PacketV, usize),
                DecodeError,
            >::Ok((v, pe as usize)));
        },
        _ => {},
    }
}

/// The bytes of a [`crate::packets::InputMoment`] packet read back as the value.
proof fn lemma_input_moment_complete(s: Seq<u8>, pos: int, v: PacketV)
    requires
        s.len() <= usize::MAX,
        v matches PacketV::InputMoment { .. },
        encodable(v),
        wf_keys(v),
        bytes_at(s, pos, packet_bytes_v(v)),
    ensures
        spec_decode_input_moment(s, pos) == Result::<(PacketV, usize), DecodeError>::Ok(
            (v, (pos + packet_bytes_v(v).len()) as usize),
        ),
{
    match v {
        PacketV::InputMoment { port, hold, index_type, index, inputs } => {
            let payload = payload_v(v);
            assert(payload == seq![port] + seq![bool_byte(hold)] + seq![moment_index_kind_value(index_type)] + be64(index) + inputs);
            assert(payload.len() <= usize::MAX);
            lemma_frame_complete(s, pos, 0xfe, 0x2, payload);
            let ps = pos + 3 + min_width(payload.len() as nat);
            let pe = ps + payload.len();
            assert(bytes_at(s, ps, payload));
            lemma_at(s, ps, payload, 0);
            assert(payload[0] == port);
            lemma_at(s, ps, payload, 1);
            assert(payload[1] == bool_byte(hold));
            if hold {
                assert(s[ps + 1] == 1);
            } else {
                assert(s[ps + 1] == 0);
            }
            lemma_at(s, ps, payload, 2);
            assert(payload[2] == moment_index_kind_value(index_type));
            lemma_moment_index_kind_round(index_type);
            lemma_subrange_split(s, ps, payload, 3, 11);
            assert(payload.subrange(3, 11) =~= be64(index));
            lemma_be64_combine(index);
            lemma_subrange_split(s, ps, payload, 11, payload.len() as int);
            assert(payload.subrange(11, payload.len() as int) =~= inputs);
            assert(s.subrange(ps + 11, pe) == inputs);
            assert(spec_parse_input_moment_payload(s, ps as usize, pe as usize) == Result::<
                (PacketV, usize),
                DecodeError,
            >::Ok((v, pe as usize)));
        },
        _ => {},
    }
}

/// The bytes of a [`crate::packets::Transition`] packet read back as the value.
proof fn lemma_transition_complete(s: Seq<u8>, pos: int, v: PacketV, depth: nat)
    requires
        s.len() <= usize::MAX,
        v matches PacketV::Transition { .. },
        encodable(v),
        wf_keys(v),
        depth + depth_of(v) <= MAX_PACKET_DEPTH,
        bytes_at(s, pos, packet_bytes_v(v)),
    ensures
        spec_decode_transition(s, pos, depth) == Result::<(PacketV, usize), DecodeError>::Ok(
            (v, (pos + packet_bytes_v(v).len()) as usize),
        ),
    decreases MAX_PACKET_DEPTH - depth, 0int,
{
    match v {
        PacketV::Transition { port, index_type, index, transition_type, inner_packet } => {
            let payload = payload_v(v);
            assert(payload == seq![port] + seq![transition_index_kind_value(index_type)] + be64(index) + seq![transition_kind_value(transition_type)] + (match inner_packet { Option::Some(b) => packet_bytes_v(*b), Option::None => Seq::<u8>::empty() }));
            assert(payload.len() <= usize::MAX);
            lemma_frame_complete(s, pos, 0xfe, 0x3, payload);
            let ps = pos + 3 + min_width(payload.len() as nat);
            let pe = ps + payload.len();
            assert(bytes_at(s, ps, payload));
            lemma_at(s, ps, payload, 0);
            assert(payload[0] == port);
            lemma_at(s, ps, payload, 1);
            assert(payload[1] == transition_index_kind_value(index_type));
            lemma_transition_index_kind_round(index_type);
            lemma_subrange_split(s, ps, payload, 2, 10);
            assert(payload.subrange(2, 10) =~= be64(index));
            lemma_be64_combine(index);
            lemma_at(s, ps, payload, 10);
            assert(payload[10] == transition_kind_value(transition_type));
            lemma_transition_kind_round(transition_type);
            match inner_packet {
                Option::Some(bx) => {
                    let iv = *bx;
                    let ib = packet_bytes_v(iv);
                    lemma_subrange_split(s, ps, payload, 11, payload.len() as int);
                    assert(payload.subrange(11, payload.len() as int) =~= ib);
                    assert(s.subrange(ps + 11, ps + 11 + ib.len()) == ib);
                    assert(ib.len() >= 2) by {
                        lemma_be_var_len(
                            payload_v(iv).len() as nat,
                            min_width(payload_v(iv).len() as nat),
                        );
                    }
                    assert(pe - ps != 11);
                    lemma_packet_complete(s, ps + 11, iv, (depth + 1) as nat);
                    assert(spec_decode_packet(s, ps + 11, (depth + 1) as nat) == Result::<
                        (PacketV, usize),
                        DecodeError,
                    >::Ok((iv, (ps + 11 + ib.len()) as usize)));
                    assert(ps + 11 + ib.len() == pe);
                },
                Option::None => {
                    assert(payload.len() == 11);
                    assert(pe - ps == 11);
                },
            }
            assert(spec_parse_transition_payload(s, ps as usize, pe as usize, depth) == Result::<
                (PacketV, usize),
                DecodeError,
            >::Ok((v, pe as usize)));
        },
        _ => {},
    }
}

/// The bytes of a [`crate::packets::LagFrameChunk`] packet read back as the value.
proof fn lemma_lag_frame_chunk_complete(s: Seq<u8>, pos: int, v: PacketV)
    requires
        s.len() <= usize::MAX,
        v matches PacketV::LagFrameChunk { .. },
        encodable(v),
        wf_keys(v),
        bytes_at(s, pos, packet_bytes_v(v)),
    ensures
        spec_decode_lag_frame_chunk(s, pos) == Result::<(PacketV, usize), DecodeError>::Ok(
            (v, (pos + packet_bytes_v(v).len()) as usize),
        ),
{
    match v {
        PacketV::LagFrameChunk { movie_frame, count } => {
            let payload = payload_v(v);
            assert(payload == be32(movie_frame) + be32(count));
            assert(payload.len() <= usize::MAX);
            lemma_frame_complete(s, pos, 0xfe, 0x4, payload);
            let ps = pos + 3 + min_width(payload.len() as nat);
            let pe = ps + payload.len();
            assert(bytes_at(s, ps, payload));
            lemma_at(s, ps, payload, 0);
            assert(payload[0] == be32(movie_frame)[0]);
            lemma_at(s, ps, payload, 1);
            assert(payload[1] == be32(movie_frame)[1]);
            lemma_at(s, ps, payload, 2);
            assert(payload[2] == be32(movie_frame)[2]);
            lemma_at(s, ps, payload, 3);
            assert(payload[3] == be32(movie_frame)[3]);
            lemma_be32_combine(movie_frame);
            lemma_at(s, ps, payload, 4);
            assert(payload[4] == be32(count)[0]);
            lemma_at(s, ps, payload, 5);
            assert(payload[5] == be32(count)[1]);
            lemma_at(s, ps, payload, 6);
            assert(payload[6] == be32(count)[2]);
            lemma_at(s, ps, payload, 7);
            assert(payload[7] == be32(count)[3]);
            lemma_be32_combine(count);
            assert(spec_parse_lag_frame_chunk_payload(s, ps as usize, pe as usize) == Result::<
                (PacketV, usize),
                DecodeError,
            >::Ok((v, pe as usize)));
        },
        _ => {},
    }
}

/// The bytes of a [`crate::packets::MovieTransition`] packet read back as the value.
proof fn lemma_movie_transition_complete(s: Seq<u8>, pos: int, v: PacketV, depth: nat)
    requires
        s.len() <= usize::MAX,
        v matches PacketV::MovieTransition { .. },
        encodable(v),
        wf_keys(v),
        depth + depth_of(v) <= MAX_PACKET_DEPTH,
        bytes_at(s, pos, packet_bytes_v(v)),
    ensures
        spec_decode_movie_transition(s, pos, depth) == Result::<(PacketV, usize), DecodeError>::Ok(
            (v, (pos + packet_bytes_v(v).len()) as usize),
        ),
    decreases MAX_PACKET_DEPTH - depth, 0int,
{
    match v {
        PacketV::MovieTransition { movie_frame, transition_type, inner_packet } => {
            let payload = payload_v(v);
            assert(payload == be32(movie_frame) + seq![transition_kind_value(transition_type)] + (match inner_packet { Option::Some(b) => packet_bytes_v(*b), Option::None => Seq::<u8>::empty() }));
            assert(payload.len() <= usize::MAX);
            lemma_frame_complete(s, pos, 0xfe, 0x5, payload);
            let ps = pos + 3 + min_width(payload.len() as nat);
            let pe = ps + payload.len();
            assert(bytes_at(s, ps, payload));
            lemma_at(s, ps, payload, 0);
            assert(payload[0] == be32(movie_frame)[0]);
            lemma_at(s, ps, payload, 1);
            assert(payload[1] == be32(movie_frame)[1]);
            lemma_at(s, ps, payload, 2);
            assert(payload[2] == be32(movie_frame)[2]);
            lemma_at(s, ps, payload, 3);
            assert(payload[3] == be32(movie_frame)[3]);
            lemma_be32_combine(movie_frame);
            lemma_at(s, ps, payload, 4);
            assert(payload[4] == transition_kind_value(transition_type));
            lemma_transition_kind_round(transition_type);
            match inner_packet {
                Option::Some(bx) => {
                    let iv = *bx;
                    let ib = packet_bytes_v(iv);
                    lemma_subrange_split(s, ps, payload, 5, payload.len() as int);
                    assert(payload.subrange(5, payload.len() as int) =~= ib);
                    assert(s.subrange(ps + 5, ps + 5 + ib.len()) == ib);
                    assert(ib.len() >= 2) by {
                        lemma_be_var_len(
                            payload_v(iv).len() as nat,
                            min_width(payload_v(iv).len() as nat),
                        );
                    }
                    assert(pe - ps != 5);
                    lemma_packet_complete(s, ps + 5, iv, (depth + 1) as nat);
                    assert(spec_decode_packet(s, ps + 5, (depth + 1) as nat) == Result::<
                        (PacketV, usize),
                        DecodeError,
                    >::Ok((iv, (ps + 5 + ib.len()) as usize)));
                    assert(ps + 5 + ib.len() == pe);
                },
                Option::None => {
                    assert(payload.len() == 5);
                    assert(pe - ps == 5);
                },
            }
            assert(spec_parse_movie_transition_payload(s, ps as usize, pe as usize, depth) == Result::<
                (PacketV, usize),
                DecodeError,
            >::Ok((v, pe as usize)));
        },
        _ => {},
    }
}

/// The bytes of a [`crate::packets::Comment`] packet read back as the value.
proof fn lemma_comment_complete(s: Seq<u8>, pos: int, v: PacketV)
    requires
        s.len() <= usize::MAX,
        v matches PacketV::Comment { .. },
        encodable(v),
        wf_keys(v),
        bytes_at(s, pos, packet_bytes_v(v)),
    ensures
        spec_decode_comment(s, pos) == Result::<(PacketV, usize), DecodeError>::Ok(
            (v, (pos + packet_bytes_v(v).len()) as usize),
        ),
{
    match v {
        PacketV::Comment { comment } => {
            let payload = payload_v(v);
            assert(payload == encode_utf8(comment));
            assert(payload.len() <= usize::MAX);
            lemma_frame_complete(s, pos, 0xff, 0x1, payload);
            let ps = pos + 3 + min_width(payload.len() as nat);
            let pe = ps + payload.len();
            assert(bytes_at(s, ps, payload));
            lemma_subrange_split(s, ps, payload, 0, payload.len() as int);
            assert(payload.subrange(0, payload.len() as int) =~= encode_utf8(comment));
            assert(s.subrange(ps + 0, pe) == encode_utf8(comment));
            encode_utf8_valid_utf8(comment);
            encode_utf8_decode_utf8(comment);
            assert(spec_parse_comment_payload(s, ps as usize, pe as usize) == Result::<
                (PacketV, usize),
                DecodeError,
            >::Ok((v, pe as usize)));
        },
        _ => {},
    }
}

/// The bytes of a [`crate::packets::Experimental`] packet read back as the value.
proof fn lemma_experimental_complete(s: Seq<u8>, pos: int, v: PacketV)
    requires
        s.len() <= usize::MAX,
        v matches PacketV::Experimental { .. },
        encodable(v),
        wf_keys(v),
        bytes_at(s, pos, packet_bytes_v(v)),
    ensures
        spec_decode_experimental(s, pos) == Result::<(PacketV, usize), DecodeError>::Ok(
            (v, (pos + packet_bytes_v(v).len()) as usize),
        ),
{
    match v {
        PacketV::Experimental { experimental } => {
            let payload = payload_v(v);
            assert(payload == seq![bool_byte(experimental)]);
            assert(payload.len() <= usize::MAX);
            lemma_frame_complete(s, pos, 0xff, 0xfe, payload);
            let ps = pos + 3 + min_width(payload.len() as nat);
            let pe = ps + payload.len();
            assert(bytes_at(s, ps, payload));
            lemma_at(s, ps, payload, 0);
            assert(payload[0] == bool_byte(experimental));
            if experimental {
                assert(s[ps + 0] == 1);
            } else {
                assert(s[ps + 0] == 0);
            }
            assert(spec_parse_experimental_payload(s, ps as usize, pe as usize) == Result::<
                (PacketV, usize),
                DecodeError,
            >::Ok((v, pe as usize)));
        },
        _ => {},
    }
}

/// The bytes of a [`crate::packets::Unspecified`] packet read back as the value.
proof fn lemma_unspecified_complete(s: Seq<u8>, pos: int, v: PacketV)
    requires
        s.len() <= usize::MAX,
        v matches PacketV::Unspecified { .. },
        encodable(v),
        wf_keys(v),
        bytes_at(s, pos, packet_bytes_v(v)),
    ensures
        spec_decode_unspecified(s, pos) == Result::<(PacketV, usize), DecodeError>::Ok(
            (v, (pos + packet_bytes_v(v).len()) as usize),
        ),
{
    match v {
        PacketV::Unspecified { data } => {
            let payload = payload_v(v);
            assert(payload == data);
            assert(payload.len() <= usize::MAX);
            lemma_frame_complete(s, pos, 0xff, 0xff, payload);
            let ps = pos + 3 + min_width(payload.len() as nat);
            let pe = ps + payload.len();
            assert(bytes_at(s, ps, payload));
            lemma_subrange_split(s, ps, payload, 0, payload.len() as int);
            assert(payload.subrange(0, payload.len() as int) =~= data);
            assert(s.subrange(ps + 0, pe) == data);
            assert(spec_parse_unspecified_payload(s, ps as usize, pe as usize) == Result::<
                (PacketV, usize),
                DecodeError,
            >::Ok((v, pe as usize)));
        },
        _ => {},
    }
}

/// The bytes of a [`crate::packets::MemoryInit`] packet read back as the
/// value, provided its name fits the one-byte length.
proof fn lemma_memory_init_complete(s: Seq<u8>, pos: int, v: PacketV)
    requires
        s.len() <= usize::MAX,
        v matches PacketV::MemoryInit { .. },
        encodable(v),
        bytes_at(s, pos, packet_bytes_v(v)),
    ensures
        spec_decode_memory_init(s, pos) == Result::<(PacketV, usize), DecodeError>::Ok(
            (v, (pos + packet_bytes_v(v).len()) as usize),
        ),
{
    match v {
        PacketV::MemoryInit { data_type, device, required, name, data } => {
            let payload = payload_v(v);
            let nb = encode_utf8(name);
            assert(payload == seq![init_kind_value(data_type)] + be16(init_device_value(device))
                + seq![bool_byte(required)] + u8str_seq(name) + data);
            assert(nb.len() <= 255);
            assert(payload.len() <= usize::MAX);
            lemma_frame_complete(s, pos, 0x00, 0x12, payload);
            let ps = pos + 3 + min_width(payload.len() as nat);
            let pe = ps + payload.len();
            assert(bytes_at(s, ps, payload));
            lemma_at(s, ps, payload, 0);
            assert(payload[0] == init_kind_value(data_type));
            lemma_init_kind_round(data_type);
            lemma_at(s, ps, payload, 1);
            assert(payload[1] == be16(init_device_value(device))[0]);
            lemma_at(s, ps, payload, 2);
            assert(payload[2] == be16(init_device_value(device))[1]);
            lemma_be16_combine(init_device_value(device));
            lemma_init_device_round(device);
            lemma_at(s, ps, payload, 3);
            assert(payload[3] == bool_byte(required));
            if required {
                assert(s[ps + 3] == 1);
            } else {
                assert(s[ps + 3] == 0);
            }
            lemma_at(s, ps, payload, 4);
            assert(payload[4] == nb.len() as u8);
            assert(s[ps + 4] as int == nb.len());
            lemma_subrange_split(s, ps, payload, 5, 5 + nb.len() as int);
            assert(payload.subrange(5, 5 + nb.len() as int) =~= nb);
            encode_utf8_valid_utf8(name);
            encode_utf8_decode_utf8(name);
            lemma_subrange_split(s, ps, payload, 5 + nb.len() as int, payload.len() as int);
            assert(payload.subrange(5 + nb.len() as int, payload.len() as int) =~= data);
            assert(s.subrange(ps + 5 + nb.len(), pe) == data);
            assert(spec_parse_memory_init_payload(s, ps as usize, pe as usize) == Result::<
                (PacketV, usize),
                DecodeError,
            >::Ok((v, pe as usize)));
        },
        _ => {},
    }
}

/// The bytes of a [`crate::packets::GameIdentifier`] packet read back as
/// the value, provided its name fits the one-byte length.
proof fn lemma_game_identifier_complete(s: Seq<u8>, pos: int, v: PacketV)
    requires
        s.len() <= usize::MAX,
        v matches PacketV::GameIdentifier { .. },
        encodable(v),
        bytes_at(s, pos, packet_bytes_v(v)),
    ensures
        spec_decode_game_identifier(s, pos) == Result::<(PacketV, usize), DecodeError>::Ok(
            (v, (pos + packet_bytes_v(v).len()) as usize),
        ),
{
    match v {
        PacketV::GameIdentifier { kind, encoding, name, identifier } => {
            let payload = payload_v(v);
            let nb = encode_utf8(name);
            assert(payload == seq![id_kind_value(kind)] + seq![id_encoding_value(encoding)]
                + u8str_seq(name) + identifier);
            assert(nb.len() <= 255);
            assert(payload.len() <= usize::MAX);
            lemma_frame_complete(s, pos, 0x00, 0x13, payload);
            let ps = pos + 3 + min_width(payload.len() as nat);
            let pe = ps + payload.len();
            assert(bytes_at(s, ps, payload));
            lemma_at(s, ps, payload, 0);
            assert(payload[0] == id_kind_value(kind));
            lemma_id_kind_round(kind);
            lemma_at(s, ps, payload, 1);
            assert(payload[1] == id_encoding_value(encoding));
            lemma_id_encoding_round(encoding);
            lemma_at(s, ps, payload, 2);
            assert(payload[2] == nb.len() as u8);
            assert(s[ps + 2] as int == nb.len());
            lemma_subrange_split(s, ps, payload, 3, 3 + nb.len() as int);
            assert(payload.subrange(3, 3 + nb.len() as int) =~= nb);
            encode_utf8_valid_utf8(name);
            encode_utf8_decode_utf8(name);
            lemma_subrange_split(s, ps, payload, 3 + nb.len() as int, payload.len() as int);
            assert(payload.subrange(3 + nb.len() as int, payload.len() as int) =~= identifier);
            assert(s.subrange(ps + 3 + nb.len(), pe) == identifier);
            assert(spec_parse_game_identifier_payload(s, ps as usize, pe as usize) == Result::<
                (PacketV, usize),
                DecodeError,
            >::Ok((v, pe as usize)));
        },
        _ => {},
    }
}

/// The bytes of a [`crate::packets::MovieFile`] packet read back as the
/// value, provided its name fits the one-byte length.
proof fn lemma_movie_file_complete(s: Seq<u8>, pos: int, v: PacketV)
    requires
        s.len() <= usize::MAX,
        v matches PacketV::MovieFile { .. },
        encodable(v),
        bytes_at(s, pos, packet_bytes_v(v)),
    ensures
        spec_decode_movie_file(s, pos) == Result::<(PacketV, usize), DecodeError>::Ok(
            (v, (pos + packet_bytes_v(v).len()) as usize),
        ),
{
    match v {
        PacketV::MovieFile { name, data } => {
            let payload = payload_v(v);
            let nb = encode_utf8(name);
            assert(payload == u8str_seq(name) + data);
            assert(nb.len() <= 255);
            assert(payload.len() <= usize::MAX);
            lemma_frame_complete(s, pos, 0x00, 0x15, payload);
            let ps = pos + 3 + min_width(payload.len() as nat);
            let pe = ps + payload.len();
            assert(bytes_at(s, ps, payload));
            lemma_at(s, ps, payload, 0);
            assert(payload[0] == nb.len() as u8);
            assert(s[ps] as int == nb.len());
            lemma_subrange_split(s, ps, payload, 1, 1 + nb.len() as int);
            assert(payload.subrange(1, 1 + nb.len() as int) =~= nb);
            encode_utf8_valid_utf8(name);
            encode_utf8_decode_utf8(name);
            lemma_subrange_split(s, ps, payload, 1 + nb.len() as int, payload.len() as int);
            assert(payload.subrange(1 + nb.len() as int, payload.len() as int) =~= data);
            assert(s.subrange(ps + 1 + nb.len(), pe) == data);
            assert(spec_parse_movie_file_payload(s, ps as usize, pe as usize) == Result::<
                (PacketV, usize),
                DecodeError,
            >::Ok((v, pe as usize)));
        },
        _ => {},
    }
}

/// Law: a packet's wire bytes, standing anywhere in a stream, decode to
/// exactly that packet, consuming exactly its bytes. This is the
/// completeness half of the packet round trip; the encoders' contracts are
/// the other half.
pub proof fn lemma_packet_complete(s: Seq<u8>, pos: int, v: PacketV, depth: nat)
    requires
        s.len() <= usize::MAX,
        encodable(v),
        wf_keys(v),
        depth + depth_of(v) <= MAX_PACKET_DEPTH,
        bytes_at(s, pos, packet_bytes_v(v)),
    ensures
        spec_decode_packet(s, pos, depth) == Result::<(PacketV, usize), DecodeError>::Ok(
            (v, (pos + packet_bytes_v(v).len()) as usize),
        ),
    decreases MAX_PACKET_DEPTH - depth, 1int,
{
    let b = packet_bytes_v(v);
    let key = key_v(v);
    let payload = payload_v(v);
    assert(b == key + plen_seq(payload.len()) + payload);
    assert(key.len() == 2) by {
        match v {
            PacketV::Unsupported { .. } => {},
            _ => {},
        }
    }
    lemma_plen_seq_len(payload.len() as nat);
    assert(b.len() >= 4);
    lemma_at(s, pos, b, 0);
    lemma_at(s, pos, b, 1);
    assert(b[0] == key[0] && b[1] == key[1]);
    assert(s[pos] == key[0] && s[pos + 1] == key[1]);
    match v {
        PacketV::ConsoleType { .. } => {
            lemma_console_type_complete(s, pos, v);
        },
        PacketV::ConsoleRegion { .. } => {
            lemma_console_region_packet_complete(s, pos, v);
        },
        PacketV::GameTitle { .. } => {
            lemma_game_title_complete(s, pos, v);
        },
        PacketV::RomName { .. } => {
            lemma_rom_name_complete(s, pos, v);
        },
        PacketV::Attribution { .. } => {
            lemma_attribution_complete(s, pos, v);
        },
        PacketV::Category { .. } => {
            lemma_category_complete(s, pos, v);
        },
        PacketV::EmulatorName { .. } => {
            lemma_emulator_name_complete(s, pos, v);
        },
        PacketV::EmulatorVersion { .. } => {
            lemma_emulator_version_complete(s, pos, v);
        },
        PacketV::EmulatorCore { .. } => {
            lemma_emulator_core_complete(s, pos, v);
        },
        PacketV::TasLastModified { .. } => {
            lemma_tas_last_modified_complete(s, pos, v);
        },
        PacketV::DumpCreated { .. } => {
            lemma_dump_created_complete(s, pos, v);
        },
        PacketV::DumpLastModified { .. } => {
            lemma_dump_last_modified_complete(s, pos, v);
        },
        PacketV::TotalFrames { .. } => {
            lemma_total_frames_complete(s, pos, v);
        },
        PacketV::Rerecords { .. } => {
            lemma_rerecords_complete(s, pos, v);
        },
        PacketV::SourceLink { .. } => {
            lemma_source_link_complete(s, pos, v);
        },
        PacketV::BlankFrames { .. } => {
            lemma_blank_frames_complete(s, pos, v);
        },
        PacketV::Verified { .. } => {
            lemma_verified_complete(s, pos, v);
        },
        PacketV::MemoryInit { .. } => {
            lemma_memory_init_complete(s, pos, v);
        },
        PacketV::GameIdentifier { .. } => {
            lemma_game_identifier_complete(s, pos, v);
        },
        PacketV::MovieLicense { .. } => {
            lemma_movie_license_complete(s, pos, v);
        },
        PacketV::MovieFile { .. } => {
            lemma_movie_file_complete(s, pos, v);
        },
        PacketV::PortController { .. } => {
            lemma_port_controller_complete(s, pos, v);
        },
        PacketV::PortOverread { .. } => {
            lemma_port_overread_complete(s, pos, v);
        },
        PacketV::NesLatchFilter { .. } => {
            lemma_nes_latch_filter_complete(s, pos, v);
        },
        PacketV::NesClockFilter { .. } => {
            lemma_nes_clock_filter_complete(s, pos, v);
        },
        PacketV::NesGameGenieCode { .. } => {
            lemma_nes_game_genie_code_complete(s, pos, v);
        },
        PacketV::SnesLatchFilter { .. } => {
            lemma_snes_latch_filter_complete(s, pos, v);
        },
        PacketV::SnesClockFilter { .. } => {
            lemma_snes_clock_filter_complete(s, pos, v);
        },
        PacketV::SnesGameGenieCode { .. } => {
            lemma_snes_game_genie_code_complete(s, pos, v);
        },
        PacketV::SnesLatchTrain { .. } => {
            lemma_snes_latch_train_complete(s, pos, v);
        },
        PacketV::GenesisGameGenieCode { .. } => {
            lemma_genesis_game_genie_code_complete(s, pos, v);
        },
        PacketV::InputChunk { .. } => {
            lemma_input_chunk_complete(s, pos, v);
        },
        PacketV::InputMoment { .. } => {
            lemma_input_moment_complete(s, pos, v);
        },
        PacketV::Transition { .. } => {
            lemma_transition_complete(s, pos, v, depth);
        },
        PacketV::LagFrameChunk { .. } => {
            lemma_lag_frame_chunk_complete(s, pos, v);
        },
        PacketV::MovieTransition { .. } => {
            lemma_movie_transition_complete(s, pos, v, depth);
        },
        PacketV::Comment { .. } => {
            lemma_comment_complete(s, pos, v);
        },
        PacketV::Experimental { .. } => {
            lemma_experimental_complete(s, pos, v);
        },
        PacketV::Unspecified { .. } => {
            lemma_unspecified_complete(s, pos, v);
        },
        PacketV::Unsupported { key: k, data } => {
            assert(!known_key(s[pos], s[pos + 1]));
            lemma_unsupported_complete(s, pos, v);
        },
    }
}

/// Law: packet round trip. Decoding the bytes of any valid packet value
/// yields the value back, consuming the whole encoding.
pub proof fn lemma_packet_round_trip(v: PacketV)
    requires
        wf_packet(v),
    ensures
        spec_decode_packet(packet_bytes_v(v), 0, 0) == Result::<(PacketV, usize), DecodeError>::Ok(
            (v, packet_bytes_v(v).len() as usize),
        ),
{
    let s = packet_bytes_v(v);
    assert(s.subrange(0, s.len() as int) =~= s);
    lemma_packet_complete(s, 0, v, 0);
}

/// Law: unsupported preservation. For any two-byte key outside the catalog
/// and any payload, the unsupported packet that carries them decodes from
/// its own encoding unchanged.
pub proof fn lemma_unsupported_round_trip(key: Seq<u8>, data: Seq<u8>)
    requires
        key.len() == 2,
        !known_key(key[0], key[1]),
        framed(key, data).len() <= usize::MAX,
    ensures
        spec_decode_packet(framed(key, data), 0, 0) == Result::<(PacketV, usize), DecodeError>::Ok(
            (PacketV::Unsupported { key, data }, framed(key, data).len() as usize),
        ),
{
    let v = PacketV::Unsupported { key, data };
    assert(packet_bytes_v(v) == framed(key, data));
    lemma_packet_round_trip(v);
}

/// The bytes of a packet sequence, filling the stream from `pos` to its
/// end, parse back to exactly those packets.
#[verifier::rlimit(50)]
pub proof fn lemma_parse_packets_complete(s: Seq<u8>, pos: int, vs: Seq<PacketV>, fuel: nat)
    requires
        0 <= pos <= s.len(),
        s.len() <= usize::MAX,
        all_wf(vs),
        s.subrange(pos, s.len() as int) == packets_bytes(vs),
        fuel >= s.len() - pos,
    ensures
        spec_parse_packets(s, pos, fuel) == Result::<Seq<PacketV>, DecodeError>::Ok(vs),
    decreases vs.len(),
{
    if vs.len() == 0 {
        assert(pos == s.len());
        assert(spec_decode_packet(s, pos, 0) == Result::<(PacketV, usize), DecodeError>::Err(
            DecodeError::EndOfStream,
        ));
        assert(vs =~= Seq::<PacketV>::empty());
    } else {
        let v0 = vs[0];
        assert(wf_packet(v0));
        let b0 = packet_bytes_v(v0);
        let rest = vs.drop_first();
        assert(packets_bytes(vs) == b0 + packets_bytes(rest));
        assert(packets_bytes(vs).len() == s.len() - pos) by {
            assert(s.subrange(pos, s.len() as int).len() == s.len() - pos);
        }
        assert(pos + b0.len() <= s.len());
        assert(bytes_at(s, pos, packets_bytes(vs)));
        lemma_subrange_split(s, pos, packets_bytes(vs), 0, b0.len() as int);
        assert(packets_bytes(vs).subrange(0, b0.len() as int) =~= b0);
        assert(bytes_at(s, pos, b0));
        lemma_packet_complete(s, pos, v0, 0);
        let p2 = pos + b0.len();
        lemma_subrange_split(s, pos, packets_bytes(vs), b0.len() as int, packets_bytes(vs).len() as int);
        assert(packets_bytes(vs).subrange(b0.len() as int, packets_bytes(vs).len() as int)
            =~= packets_bytes(rest));
        assert(s.subrange(p2, s.len() as int) == packets_bytes(rest));
        assert(all_wf(rest)) by {
            assert(forall|i: int| 0 <= i < rest.len() ==> #[trigger] rest[i] == vs[i + 1]);
        }
        assert(b0.len() >= 1) by {
            lemma_plen_seq_len(payload_v(v0).len() as nat);
            match v0 {
                PacketV::Unsupported { .. } => {},
                _ => {},
            }
        }
        lemma_parse_packets_complete(s, p2, rest, (fuel - 1) as nat);
        assert(seq![v0] + rest =~= vs);
        assert(fuel >= 1);
        assert(spec_decode_packet(s, pos, 0) == Result::<(PacketV, usize), DecodeError>::Ok(
            (v0, p2 as usize),
        ));
        assert(spec_parse_packets(s, p2, (fuel - 1) as nat) == Result::<
            Seq<PacketV>,
            DecodeError,
        >::Ok(rest));
        assert(spec_parse_packets(s, pos, fuel) == Result::<Seq<PacketV>, DecodeError>::Ok(
            seq![v0] + rest,
        ));
    }
}

/// Law: file round trip. The bytes of any valid file parse back to the
/// same header and the same packet sequence; together with the encoder's
/// contract this says `parse(encode(f))` returns `f`, up to the attached
/// path, which the wire form does not carry.
pub proof fn lemma_file_round_trip(f: FileV)
    requires
        wf_file(f),
    ensures
        ({
            let s = file_bytes(f);
            &&& s.len() >= 7
            &&& s.subrange(0, 4) == magic_seq()
            &&& combine16(s[4], s[5]) == 1
            &&& s[6] == f.keylen
            &&& spec_parse_packets(s, 7, (s.len() - 7) as nat) == Result::<
                Seq<PacketV>,
                DecodeError,
            >::Ok(f.packets)
        }),
{
    let s = file_bytes(f);
    let header = magic_seq() + be16(f.version) + seq![f.keylen];
    assert(s == header + packets_bytes(f.packets));
    assert(header.len() == 7);
    assert(forall|j: int| 0 <= j < header.len() ==> s[j] == header[j]);
    assert(s.subrange(0, 4) =~= magic_seq());
    assert(s[4] == be16(1u16)[0] && s[5] == be16(1u16)[1]);
    lemma_be16_combine(1u16);
    assert(s[6] == f.keylen);
    assert(s.subrange(7, s.len() as int) =~= packets_bytes(f.packets)) by {
        assert(forall|j: int|
            0 <= j < packets_bytes(f.packets).len() ==> s[7 + j] == packets_bytes(f.packets)[j]);
    }
    lemma_parse_packets_complete(s, 7, f.packets, (s.len() - 7) as nat);
}

/// Law: forward compatibility. Injecting an unknown-keyed packet anywhere
/// into a valid file yields a valid file whose bytes parse back to the
/// packet sequence with the injection in place; re-encoding it gives the
/// same bytes, since the encoders emit exactly the model bytes.
pub proof fn lemma_forward_compat(f: FileV, i: int, key: Seq<u8>, data: Seq<u8>)
    requires
        wf_file(f),
        0 <= i <= f.packets.len(),
        key.len() == 2,
        !known_key(key[0], key[1]),
        file_bytes(
            FileV {
                version: f.version,
                keylen: f.keylen,
                packets: f.packets.insert(i, PacketV::Unsupported { key, data }),
            },
        ).len() <= usize::MAX,
    ensures
        ({
            let f2 = FileV {
                version: f.version,
                keylen: f.keylen,
                packets: f.packets.insert(i, PacketV::Unsupported { key, data }),
            };
            let s = file_bytes(f2);
            &&& wf_file(f2)
            &&& spec_parse_packets(s, 7, (s.len() - 7) as nat) == Result::<
                Seq<PacketV>,
                DecodeError,
            >::Ok(f2.packets)
        }),
{
    let u = PacketV::Unsupported { key, data };
    let f2 = FileV { version: f.version, keylen: f.keylen, packets: f.packets.insert(i, u) };
    assert(wf_packet(u)) by {
        assert(packet_bytes_v(u).len() <= file_bytes(f2).len()) by {
            lemma_packets_bytes_contains(f2.packets, i);
            assert(f2.packets[i] == u);
        }
    }
    assert(all_wf(f2.packets)) by {
        assert(forall|j: int| 0 <= j < i ==> f2.packets[j] == f.packets[j]);
        assert(forall|j: int|
            i < j < f2.packets.len() ==> f2.packets[j] == f.packets[j - 1]);
        assert(f2.packets[i] == u);
    }
    lemma_file_round_trip(f2);
}

/// Each packet's bytes are no longer than the bytes of any sequence that
/// holds it.
proof fn lemma_packets_bytes_contains(ps: Seq<PacketV>, i: int)
    requires
        0 <= i < ps.len(),
    ensures
        packet_bytes_v(ps[i]).len() <= packets_bytes(ps).len(),
    decreases i,
{
    if i == 0 {
    } else {
        lemma_packets_bytes_contains(ps.drop_first(), i - 1);
        assert(ps.drop_first()[i - 1] == ps[i]);
    }
}

} // verus!
