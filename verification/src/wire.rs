//! The byte-level building blocks of the TASD wire format: big-endian
//! fixed-width integers and the variable-width payload-length prefix
//! (one exponent byte followed by that many big-endian length bytes).

use vstd::prelude::*;
use vstd::arithmetic::power::pow;

verus! {

// ---------------------------------------------------------------------------
// Big-endian fixed-width encodings (specification)
// ---------------------------------------------------------------------------

/// The two big-endian bytes of a `u16`.
pub open spec fn be16(v: u16) -> Seq<u8> {
    seq![((v >> 8) & 0xFF) as u8, (v & 0xFF) as u8]
}

/// The four big-endian bytes of a `u32`.
pub open spec fn be32(v: u32) -> Seq<u8> {
    seq![
        ((v >> 24) & 0xFF) as u8,
        ((v >> 16) & 0xFF) as u8,
        ((v >> 8) & 0xFF) as u8,
        (v & 0xFF) as u8,
    ]
}

/// The eight big-endian bytes of a `u64`.
pub open spec fn be64(v: u64) -> Seq<u8> {
    seq![
        ((v >> 56) & 0xFF) as u8,
        ((v >> 48) & 0xFF) as u8,
        ((v >> 40) & 0xFF) as u8,
        ((v >> 32) & 0xFF) as u8,
        ((v >> 24) & 0xFF) as u8,
        ((v >> 16) & 0xFF) as u8,
        ((v >> 8) & 0xFF) as u8,
        (v & 0xFF) as u8,
    ]
}

/// The two's-complement bit pattern of a signed value, as the unsigned
/// value of the same width.
pub open spec fn u16_of_i16(v: i16) -> u16 {
    if v >= 0 {
        v as u16
    } else {
        ((v as int) + 0x1_0000) as u16
    }
}

pub open spec fn i16_of_u16(u: u16) -> i16 {
    if u < 0x8000 {
        u as i16
    } else {
        ((u as int) - 0x1_0000) as i16
    }
}

pub open spec fn u64_of_i64(v: i64) -> u64 {
    if v >= 0 {
        v as u64
    } else {
        ((v as int) + 0x1_0000_0000_0000_0000) as u64
    }
}

pub open spec fn i64_of_u64(u: u64) -> i64 {
    if u < 0x8000_0000_0000_0000 {
        u as i64
    } else {
        ((u as int) - 0x1_0000_0000_0000_0000) as i64
    }
}

/// Signed values travel as the two's-complement bit pattern of the
/// corresponding unsigned width.
pub open spec fn bei16(v: i16) -> Seq<u8> {
    be16(u16_of_i16(v))
}

pub open spec fn bei64(v: i64) -> Seq<u8> {
    be64(u64_of_i64(v))
}

/// A boolean on the wire: `0x00` for false, `0x01` for true.
pub open spec fn bool_byte(b: bool) -> u8 {
    if b {
        1u8
    } else {
        0u8
    }
}

// ---------------------------------------------------------------------------
// Recombining bytes into values (specification)
// ---------------------------------------------------------------------------

pub open spec fn combine16(b0: u8, b1: u8) -> u16 {
    ((b0 as u16) << 8) | (b1 as u16)
}

pub open spec fn combine32(b0: u8, b1: u8, b2: u8, b3: u8) -> u32 {
    ((b0 as u32) << 24) | ((b1 as u32) << 16) | ((b2 as u32) << 8) | (b3 as u32)
}

pub open spec fn combine64(s: Seq<u8>) -> u64
    recommends
        s.len() == 8,
{
    ((s[0] as u64) << 56) | ((s[1] as u64) << 48) | ((s[2] as u64) << 40) | ((s[3] as u64) << 32)
        | ((s[4] as u64) << 24) | ((s[5] as u64) << 16) | ((s[6] as u64) << 8) | (s[7] as u64)
}

/// Recombining the big-endian bytes of a value gives the value back.
pub proof fn lemma_be16_combine(v: u16)
    ensures
        combine16(be16(v)[0], be16(v)[1]) == v,
{
    assert(combine16(((v >> 8) & 0xFF) as u8, (v & 0xFF) as u8) == v) by (bit_vector);
}

pub proof fn lemma_be32_combine(v: u32)
    ensures
        combine32(be32(v)[0], be32(v)[1], be32(v)[2], be32(v)[3]) == v,
{
    assert(combine32(
        ((v >> 24) & 0xFF) as u8,
        ((v >> 16) & 0xFF) as u8,
        ((v >> 8) & 0xFF) as u8,
        (v & 0xFF) as u8,
    ) == v) by (bit_vector);
}

pub proof fn lemma_be64_combine(v: u64)
    ensures
        combine64(be64(v)) == v,
{
    let b0 = ((v >> 56) & 0xFF) as u8;
    let b1 = ((v >> 48) & 0xFF) as u8;
    let b2 = ((v >> 40) & 0xFF) as u8;
    let b3 = ((v >> 32) & 0xFF) as u8;
    let b4 = ((v >> 24) & 0xFF) as u8;
    let b5 = ((v >> 16) & 0xFF) as u8;
    let b6 = ((v >> 8) & 0xFF) as u8;
    let b7 = (v & 0xFF) as u8;
    assert(((b0 as u64) << 56) | ((b1 as u64) << 48) | ((b2 as u64) << 40) | ((b3 as u64) << 32)
        | ((b4 as u64) << 24) | ((b5 as u64) << 16) | ((b6 as u64) << 8) | (b7 as u64) == v)
        by (bit_vector)
        requires
            b0 == ((v >> 56) & 0xFF) as u8,
            b1 == ((v >> 48) & 0xFF) as u8,
            b2 == ((v >> 40) & 0xFF) as u8,
            b3 == ((v >> 32) & 0xFF) as u8,
            b4 == ((v >> 24) & 0xFF) as u8,
            b5 == ((v >> 16) & 0xFF) as u8,
            b6 == ((v >> 8) & 0xFF) as u8,
            b7 == (v & 0xFF) as u8,
    ;
    assert(be64(v) =~= seq![b0, b1, b2, b3, b4, b5, b6, b7]);
}

/// Taking a signed value's bit pattern and reading it back is the identity.
pub proof fn lemma_i16_cast(v: i16)
    ensures
        i16_of_u16(u16_of_i16(v)) == v,
{
}

pub proof fn lemma_i64_cast(v: i64)
    ensures
        i64_of_u64(u64_of_i64(v)) == v,
{
}

/// Converts a signed value to its two's-complement bit pattern.
pub fn i16_bits(v: i16) -> (r: u16)
    ensures
        r == u16_of_i16(v),
{
    if v >= 0 {
        v as u16
    } else {
        let x: i16 = v + 0x4000i16 + 0x4000i16;
        (x as u16) + 0x8000u16
    }
}

pub fn i16_from_bits(u: u16) -> (r: i16)
    ensures
        r == i16_of_u16(u),
{
    if u < 0x8000 {
        u as i16
    } else {
        let x: u16 = u - 0x8000;
        (x as i16) - 0x4000i16 - 0x4000i16
    }
}

pub fn i64_bits(v: i64) -> (r: u64)
    ensures
        r == u64_of_i64(v),
{
    if v >= 0 {
        v as u64
    } else {
        let x: i64 = v + 0x4000_0000_0000_0000i64 + 0x4000_0000_0000_0000i64;
        (x as u64) + 0x8000_0000_0000_0000u64
    }
}

pub fn i64_from_bits(u: u64) -> (r: i64)
    ensures
        r == i64_of_u64(u),
{
    if u < 0x8000_0000_0000_0000 {
        u as i64
    } else {
        let x: u64 = u - 0x8000_0000_0000_0000;
        (x as i64) - 0x4000_0000_0000_0000i64 - 0x4000_0000_0000_0000i64
    }
}

// ---------------------------------------------------------------------------
// The variable-width payload-length prefix (specification)
// ---------------------------------------------------------------------------

/// The value of a big-endian digit string (most significant byte first).
pub open spec fn be_val(s: Seq<u8>) -> nat
    decreases s.len(),
{
    if s.len() == 0 {
        0
    } else {
        be_val(s.drop_last()) * 256 + s.last() as nat
    }
}

/// The least number of bytes (at least one) that hold `n` in big-endian form.
pub open spec fn min_width(n: nat) -> nat
    decreases n,
{
    if n < 256 {
        1
    } else {
        1 + min_width(n / 256)
    }
}

/// `n` written big-endian in exactly `e` bytes (leading zeros as needed).
pub open spec fn be_var(n: nat, e: nat) -> Seq<u8>
    decreases e,
{
    if e == 0 {
        Seq::<u8>::empty()
    } else {
        be_var(n / 256, (e - 1) as nat) + seq![(n % 256) as u8]
    }
}

/// The full length prefix: the minimal width as the exponent byte, then that
/// many big-endian length bytes. A zero length is emitted as `[0x01, 0x00]`,
/// which the decoder accepts; the exponent byte `0x00` is reserved and never
/// produced.
pub open spec fn plen_seq(n: nat) -> Seq<u8> {
    seq![min_width(n) as u8] + be_var(n, min_width(n))
}

/// The outer framing every packet shares: key, length prefix, payload.
pub open spec fn framed(key: Seq<u8>, payload: Seq<u8>) -> Seq<u8> {
    key + plen_seq(payload.len()) + payload
}

// ---------------------------------------------------------------------------
// Lemmas about the length prefix
// ---------------------------------------------------------------------------

/// The powers of 256 that a length prefix of a vector's length can use.
pub proof fn lemma_pow256_unfold()
    ensures
        pow(256, 0) == 1,
        pow(256, 1) == 256,
        pow(256, 8) == 0x1_0000_0000_0000_0000,
{
    reveal(pow);
    assert(pow(256, 0) == 1);
    assert(pow(256, 1) == 256);
    assert(pow(256, 2) == 0x1_0000);
    assert(pow(256, 3) == 0x100_0000);
    assert(pow(256, 4) == 0x1_0000_0000);
    assert(pow(256, 5) == 0x100_0000_0000);
    assert(pow(256, 6) == 0x1_0000_0000_0000);
    assert(pow(256, 7) == 0x100_0000_0000_0000);
    assert(pow(256, 8) == 0x1_0000_0000_0000_0000);
}

pub proof fn lemma_be_var_len(n: nat, e: nat)
    ensures
        be_var(n, e).len() == e,
    decreases e,
{
    if e > 0 {
        lemma_be_var_len(n / 256, (e - 1) as nat);
    }
}

/// `n` fits in `min_width(n)` bytes, and in no fewer: this is the minimality
/// of the encoder's chosen exponent.
pub proof fn lemma_min_width(n: nat)
    ensures
        1 <= min_width(n),
        n < pow(256, min_width(n)),
        min_width(n) > 1 ==> pow(256, (min_width(n) - 1) as nat) <= n,
    decreases n,
{
    reveal(pow);
    if n < 256 {
        assert(pow(256, 1) == 256) by { lemma_pow256_unfold(); }
    } else {
        lemma_min_width(n / 256);
        let w = min_width(n / 256);
        assert(pow(256, w + 1) == 256 * pow(256, w));
        assert(n / 256 < pow(256, w));
        assert(n < 256 * pow(256, w)) by (nonlinear_arith)
            requires
                n / 256 < pow(256, w),
                pow(256, w) >= 0,
                n >= 0,
        ;
        if w > 1 {
            assert(pow(256, w) == 256 * pow(256, (w - 1) as nat));
            assert(pow(256, (w - 1) as nat) <= n / 256);
            assert(256 * (n / 256) <= n) by (nonlinear_arith)
                requires
                    n >= 0,
            ;
            assert(256 * pow(256, (w - 1) as nat) <= 256 * (n / 256)) by (nonlinear_arith)
                requires
                    pow(256, (w - 1) as nat) <= n / 256,
            ;
        } else {
            assert(pow(256, 1) == 256) by { lemma_pow256_unfold(); }
            assert(256 <= n);
        }
    }
}

/// Any value below `pow(256, e)` needs at most `e` bytes.
pub proof fn lemma_min_width_le(n: nat, e: nat)
    requires
        1 <= e,
        n < pow(256, e),
    ensures
        min_width(n) <= e,
    decreases e,
{
    reveal(pow);
    if n < 256 {
    } else {
        assert(pow(256, e) == 256 * pow(256, (e - 1) as nat));
        assert(e >= 2) by {
            if e == 1 {
                assert(pow(256, 1) == 256) by { lemma_pow256_unfold(); }
            }
        }
        assert(n / 256 < pow(256, (e - 1) as nat)) by (nonlinear_arith)
            requires
                n < 256 * pow(256, (e - 1) as nat),
                n >= 0,
        ;
        lemma_min_width_le(n / 256, (e - 1) as nat);
    }
}

/// Reading back the `e` big-endian bytes of `n` yields `n`, provided it fits.
pub proof fn lemma_be_var_val(n: nat, e: nat)
    requires
        n < pow(256, e),
    ensures
        be_val(be_var(n, e)) == n,
    decreases e,
{
    reveal(pow);
    if e == 0 {
        assert(pow(256, 0) == 1) by { lemma_pow256_unfold(); }
    } else {
        let s = be_var(n, e);
        lemma_be_var_len(n / 256, (e - 1) as nat);
        assert(pow(256, e) == 256 * pow(256, (e - 1) as nat));
        assert(n / 256 < pow(256, (e - 1) as nat)) by (nonlinear_arith)
            requires
                n < 256 * pow(256, (e - 1) as nat),
                n >= 0,
        ;
        lemma_be_var_val(n / 256, (e - 1) as nat);
        assert(s.drop_last() =~= be_var(n / 256, (e - 1) as nat));
        assert(s.last() == (n % 256) as u8);
        assert(be_val(s) == (n / 256) * 256 + n % 256);
        assert((n / 256) * 256 + n % 256 == n) by (nonlinear_arith)
            requires
                n >= 0,
        ;
    }
}

/// Appending one more byte to a digit string multiplies its value by 256.
pub proof fn lemma_be_val_push(s: Seq<u8>, b: u8)
    ensures
        be_val(s.push(b)) == be_val(s) * 256 + b,
{
    assert(s.push(b).drop_last() =~= s);
    assert(s.push(b).last() == b);
}

/// A digit string's value only grows as more bytes are appended.
pub proof fn lemma_be_val_prefix_le(s: Seq<u8>, i: int)
    requires
        0 <= i <= s.len(),
    ensures
        be_val(s.subrange(0, i)) <= be_val(s),
    decreases s.len() - i,
{
    if i < s.len() {
        let a = s.subrange(0, i);
        let b = s.subrange(0, i + 1);
        assert(b.drop_last() =~= a);
        assert(be_val(b) == be_val(a) * 256 + b.last());
        assert(be_val(a) <= be_val(a) * 256) by (nonlinear_arith)
            requires
                be_val(a) >= 0,
        ;
        lemma_be_val_prefix_le(s, i + 1);
        assert(s.subrange(0, i + 1) =~= b);
    } else {
        assert(s.subrange(0, i) =~= s);
    }
}

/// The length prefix of any length a vector can have spans 2 to 9 bytes.
pub proof fn lemma_plen_seq_len(n: nat)
    requires
        n <= usize::MAX,
    ensures
        plen_seq(n).len() == 1 + min_width(n),
        1 <= min_width(n) <= 8,
        min_width(n) as u8 as nat == min_width(n),
    decreases n,
{
    lemma_be_var_len(n, min_width(n));
    assert(pow(256, 8) == 0x1_0000_0000_0000_0000) by { lemma_pow256_unfold(); }
    assert(usize::MAX <= 0xFFFF_FFFF_FFFF_FFFF);
    lemma_min_width_le(n, 8);
}

/// Law: the length prefix the encoder emits for a payload of `n` bytes is
/// minimal: one exponent byte plus exactly `min_width(n)` length bytes,
/// where `n` fits in `min_width(n)` big-endian bytes and, except for the
/// one-byte floor, in no fewer.
pub proof fn lemma_plen_minimality(n: nat)
    requires
        n <= usize::MAX,
    ensures
        plen_seq(n).len() == 1 + min_width(n),
        n < pow(256, min_width(n)),
        min_width(n) > 1 ==> pow(256, (min_width(n) - 1) as nat) <= n,
{
    lemma_plen_seq_len(n);
    lemma_min_width(n);
}

// ---------------------------------------------------------------------------
// Executable emitters
// ---------------------------------------------------------------------------

pub fn push_u8(out: &mut Vec<u8>, v: u8)
    ensures
        final(out)@ == old(out)@ + seq![v],
{
    out.push(v);
    proof {
        assert(out@ =~= old(out)@ + seq![v]);
    }
}

pub fn push_u16(out: &mut Vec<u8>, v: u16)
    ensures
        final(out)@ == old(out)@ + be16(v),
{
    proof {
        assert((v >> 8) & 0xFF < 256 && v & 0xFF < 256) by (bit_vector);
    }
    out.push(((v >> 8) & 0xFF) as u8);
    out.push((v & 0xFF) as u8);
    proof {
        assert(out@ =~= old(out)@ + be16(v));
    }
}

pub fn push_u32(out: &mut Vec<u8>, v: u32)
    ensures
        final(out)@ == old(out)@ + be32(v),
{
    proof {
        assert((v >> 24) & 0xFF < 256 && (v >> 16) & 0xFF < 256 && (v >> 8) & 0xFF < 256 && v
            & 0xFF < 256) by (bit_vector);
    }
    out.push(((v >> 24) & 0xFF) as u8);
    out.push(((v >> 16) & 0xFF) as u8);
    out.push(((v >> 8) & 0xFF) as u8);
    out.push((v & 0xFF) as u8);
    proof {
        assert(out@ =~= old(out)@ + be32(v));
    }
}

pub fn push_u64(out: &mut Vec<u8>, v: u64)
    ensures
        final(out)@ == old(out)@ + be64(v),
{
    proof {
        assert((v >> 56) & 0xFF < 256 && (v >> 48) & 0xFF < 256 && (v >> 40) & 0xFF < 256 && (v
            >> 32) & 0xFF < 256 && (v >> 24) & 0xFF < 256 && (v >> 16) & 0xFF < 256 && (v >> 8)
            & 0xFF < 256 && v & 0xFF < 256) by (bit_vector);
    }
    out.push(((v >> 56) & 0xFF) as u8);
    out.push(((v >> 48) & 0xFF) as u8);
    out.push(((v >> 40) & 0xFF) as u8);
    out.push(((v >> 32) & 0xFF) as u8);
    out.push(((v >> 24) & 0xFF) as u8);
    out.push(((v >> 16) & 0xFF) as u8);
    out.push(((v >> 8) & 0xFF) as u8);
    out.push((v & 0xFF) as u8);
    proof {
        assert(out@ =~= old(out)@ + be64(v));
    }
}

pub fn push_i16(out: &mut Vec<u8>, v: i16)
    ensures
        final(out)@ == old(out)@ + bei16(v),
{
    let bits = i16_bits(v);
    push_u16(out, bits);
}

pub fn push_i64(out: &mut Vec<u8>, v: i64)
    ensures
        final(out)@ == old(out)@ + bei64(v),
{
    let bits = i64_bits(v);
    push_u64(out, bits);
}

pub fn push_bool(out: &mut Vec<u8>, b: bool)
    ensures
        final(out)@ == old(out)@ + seq![bool_byte(b)],
{
    if b {
        push_u8(out, 1);
    } else {
        push_u8(out, 0);
    }
}

pub fn push_bytes(out: &mut Vec<u8>, bytes: &Vec<u8>)
    ensures
        final(out)@ == old(out)@ + bytes@,
{
    let mut i: usize = 0;
    while i < bytes.len()
        invariant
            i <= bytes@.len(),
            out@ == old(out)@ + bytes@.subrange(0, i as int),
        decreases bytes@.len() - i,
    {
        out.push(bytes[i]);
        proof {
            assert(out@ =~= old(out)@ + bytes@.subrange(0, i + 1));
        }
        i = i + 1;
    }
    proof {
        assert(bytes@.subrange(0, bytes@.len() as int) =~= bytes@);
    }
}

/// The minimal big-endian width of `n`, computed as the specification states it.
pub fn plen_width(n: usize) -> (e: usize)
    ensures
        e as nat == min_width(n as nat),
        1 <= e <= 8,
    decreases n,
{
    proof {
        lemma_plen_seq_len(n as nat);
    }
    if n < 256 {
        1
    } else {
        1 + plen_width(n / 256)
    }
}

fn push_be_var(out: &mut Vec<u8>, n: usize, e: usize)
    ensures
        final(out)@ == old(out)@ + be_var(n as nat, e as nat),
    decreases e,
{
    if e == 0 {
        proof {
            assert(out@ =~= old(out)@ + be_var(n as nat, 0));
        }
        return ;
    }
    push_be_var(out, n / 256, e - 1);
    out.push((n % 256) as u8);
    proof {
        assert(out@ =~= old(out)@ + be_var(n as nat, e as nat));
    }
}

/// Emits the length prefix for a payload of `n` bytes. The prefix is always
/// `1 + min_width(n)` bytes: one exponent byte and the minimal big-endian form.
pub fn push_plen(out: &mut Vec<u8>, n: usize)
    ensures
        final(out)@ == old(out)@ + plen_seq(n as nat),
        final(out)@.len() == old(out)@.len() + 1 + min_width(n as nat),
{
    let e = plen_width(n);
    out.push(e as u8);
    push_be_var(out, n, e);
    proof {
        lemma_be_var_len(n as nat, e as nat);
        assert(out@ =~= old(out)@ + plen_seq(n as nat));
    }
}

// ---------------------------------------------------------------------------
// Executable readers
// ---------------------------------------------------------------------------

/// Copies the window `[from, to)` of `data` into a fresh vector.
pub fn subvec(data: &Vec<u8>, from: usize, to: usize) -> (r: Vec<u8>)
    requires
        from <= to <= data@.len(),
    ensures
        r@ == data@.subrange(from as int, to as int),
{
    let mut out: Vec<u8> = Vec::new();
    let mut i: usize = from;
    while i < to
        invariant
            from <= i <= to <= data@.len(),
            out@ == data@.subrange(from as int, i as int),
        decreases to - i,
    {
        out.push(data[i]);
        proof {
            assert(out@ =~= data@.subrange(from as int, i as int + 1));
        }
        i = i + 1;
    }
    out
}

} // verus!
