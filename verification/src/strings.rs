//! String handling for the codec: UTF-8 validation on decode, and the
//! boundary-safe truncation used by the one-byte-length-prefixed string
//! field encoding.

use vstd::prelude::*;
use vstd::string::StrSliceExecFns;
use vstd::string::StringSliceAdditionalSpecFns;
use vstd::utf8::decode_utf8;
use vstd::utf8::decode_utf8_split;
use vstd::utf8::encode_utf8;
use vstd::utf8::encode_utf8_decode_utf8;
use vstd::utf8::encode_utf8_valid_utf8;
use vstd::utf8::is_char_boundary;
use vstd::utf8::valid_utf8;
use vstd::utf8::valid_utf8_split;

verus! {

/// Relies on `String::from_utf8`: it succeeds exactly on the inputs that are
/// valid UTF-8, and the returned string consists of the characters those
/// bytes encode.
#[verifier::external_body]
pub fn bytes_to_string(bytes: Vec<u8>) -> (r: Option<String>)
    ensures
        r matches Some(s) ==> valid_utf8(bytes@) && s@ == decode_utf8(bytes@),
        valid_utf8(bytes@) ==> r is Some,
{
    String::from_utf8(bytes).ok()
}

/// The UTF-8 bytes of a string, as a fresh vector.
pub fn string_bytes(s: &String) -> (r: Vec<u8>)
    ensures
        r@ == encode_utf8(s@),
{
    s.as_str().as_bytes_vec()
}

/// What the one-byte-length-prefixed string encoder may emit for `name`:
/// one length byte, then a prefix of the string's UTF-8 bytes that is itself
/// valid UTF-8 (it ends on a character boundary), at most 255 bytes, and the
/// whole string whenever that fits.
pub open spec fn u8str_trunc(name: Seq<char>, t: Seq<u8>) -> bool {
    &&& 1 <= t.len() <= 256
    &&& t[0] as nat == (t.len() - 1) as nat
    &&& t.subrange(1, t.len() as int) == encode_utf8(name).subrange(0, t.len() - 1)
    &&& (encode_utf8(name).len() <= 255 ==> t == crate::packets::model::u8str_seq(name))
    &&& valid_utf8(t.subrange(1, t.len() as int))
    &&& (exists|k: int|
        0 <= k <= name.len() && decode_utf8(t.subrange(1, t.len() as int)) == name.subrange(0, k))
}

/// Encodes a string as a one-byte length followed by that many UTF-8 bytes.
///
/// A source string of more than 255 bytes is cut at the largest UTF-8
/// character boundary at or below 255, so the emitted bytes are always the
/// valid encoding of a character prefix of the source: no code point is ever
/// split. A string of at most 255 bytes is emitted whole.
pub fn u8_string_bytes(s: &str) -> (r: Vec<u8>)
    ensures
        1 <= r@.len() <= 256,
        r@[0] as nat == (r@.len() - 1) as nat,
        r@.subrange(1, r@.len() as int) == encode_utf8(s@).subrange(0, r@.len() - 1),
        encode_utf8(s@).len() <= 255 ==> r@ == seq![encode_utf8(s@).len() as u8] + encode_utf8(
            s@,
        ),
        valid_utf8(r@.subrange(1, r@.len() as int)),
        exists|k: int|
            0 <= k <= s@.len() && decode_utf8(r@.subrange(1, r@.len() as int)) == s@.subrange(0, k),
        u8str_trunc(s@, r@),
{
    proof {
        encode_utf8_valid_utf8(s@);
    }
    let raw = s.as_bytes_vec();
    let len = raw.len();
    let cut: usize;
    if len <= 255 {
        cut = len;
        proof {
            vstd::utf8::is_char_boundary_start_end_of_seq(encode_utf8(s@));
        }
    } else {
        let mut c: usize = 255;
        while !s.is_char_boundary(c)
            invariant
                c <= 255,
                valid_utf8(encode_utf8(s@)),
                255 < encode_utf8(s@).len(),
            decreases c,
        {
            proof {
                assert(is_char_boundary(encode_utf8(s@), 0));
            }
            c = c - 1;
        }
        cut = c;
    }
    let ghost bytes = encode_utf8(s@);
    proof {
        assert(is_char_boundary(bytes, cut as int));
        assert(cut <= bytes.len());
    }
    let mut out: Vec<u8> = Vec::new();
    out.push(cut as u8);
    let mut i: usize = 0;
    while i < cut
        invariant
            i <= cut <= raw@.len(),
            raw@ == bytes,
            out@ == seq![cut as u8] + bytes.subrange(0, i as int),
        decreases cut - i,
    {
        out.push(raw[i]);
        proof {
            assert(out@ =~= seq![cut as u8] + bytes.subrange(0, i as int + 1));
        }
        i = i + 1;
    }
    proof {
        let prefix = bytes.subrange(0, cut as int);
        assert(out@.subrange(1, out@.len() as int) =~= prefix);
        valid_utf8_split(bytes, cut as int);
        decode_utf8_split(bytes, cut as int);
        encode_utf8_decode_utf8(s@);
        let k = decode_utf8(prefix).len() as int;
        assert(s@ == decode_utf8(prefix) + decode_utf8(
            bytes.subrange(cut as int, bytes.len() as int),
        ));
        assert(s@.subrange(0, k) =~= decode_utf8(prefix));
        if bytes.len() <= 255 {
            assert(cut == bytes.len());
            assert(out@ =~= seq![bytes.len() as u8] + bytes);
        }
    }
    out
}

} // verus!
