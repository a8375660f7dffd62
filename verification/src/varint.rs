//! Specification of the VarInt encoding: unsigned integers are written seven
//! bits at a time, least-significant group first, with the high bit of each
//! byte marking that another byte follows.  Decoding is bounded by the bit
//! width of the target type: a continuation chain that would shift past the
//! width is rejected rather than read without end.

use vstd::prelude::*;
use vstd::arithmetic::div_mod::{
    lemma_div_non_zero, lemma_fundamental_div_mod, lemma_multiply_divide_lt, lemma_small_mod,
};
use vstd::arithmetic::power2::{lemma2_to64, lemma_pow2_adds, lemma_pow2_pos, pow2};

verus! {

/// Outcome of decoding one VarInt from the front of a byte sequence.
pub enum VarIntOutcome {
    /// A terminating byte was reached: the decoded value (already reduced
    /// modulo the type width) and the number of bytes consumed.
    Done { value: nat, size: nat },
    /// The continuation chain filled the bit width of the target type before
    /// a terminating byte was reached; `size` bytes were consumed before
    /// giving up, never more than `ceil(width / 7)`.
    TooLong { size: nat },
    /// The sequence ran out before a terminating byte was reached.
    Exhausted,
}

/// Decode the continuation chain at the front of `s`, with `bits` bits of the
/// target width still available.  The width is checked before a byte is
/// taken, so a chain is refused as soon as the next group could only land at
/// or past the width.  The value is the raw (untruncated) sum of the
/// seven-bit groups; reduction modulo the width happens in [`varint_parse`].
pub open spec fn varint_parse_chain(s: Seq<u8>, bits: int) -> VarIntOutcome
    decreases s.len(),
{
    if bits <= 0 {
        VarIntOutcome::TooLong { size: 0 }
    } else if s.len() == 0 {
        VarIntOutcome::Exhausted
    } else if s[0] < 128 {
        VarIntOutcome::Done { value: s[0] as nat, size: 1 }
    } else {
        match varint_parse_chain(s.drop_first(), bits - 7) {
            VarIntOutcome::Done { value, size } => VarIntOutcome::Done {
                value: ((s[0] - 128) + 128 * value) as nat,
                size: size + 1,
            },
            VarIntOutcome::TooLong { size } => VarIntOutcome::TooLong { size: size + 1 },
            VarIntOutcome::Exhausted => VarIntOutcome::Exhausted,
        }
    }
}

/// Decode one VarInt of width `bits` from the front of `s`.  Bits of the last
/// group that lie beyond the width are discarded, exactly as the running
/// decoder's fixed-width shift discards them.
pub open spec fn varint_parse(s: Seq<u8>, bits: nat) -> VarIntOutcome {
    match varint_parse_chain(s, bits as int) {
        VarIntOutcome::Done { value, size } => VarIntOutcome::Done {
            value: value % pow2(bits),
            size,
        },
        other => other,
    }
}

/// The minimal VarInt encoding of `v`: seven bits per byte, least-significant
/// group first, continuation bit set on every byte but the last.
pub open spec fn varint_encode(v: nat) -> Seq<u8>
    decreases v,
{
    if v < 128 {
        seq![v as u8]
    } else {
        seq![(128 + (v % 128)) as u8] + varint_encode(v / 128)
    }
}

/// Number of binary digits needed to write `v`; zero for `v == 0`.
pub open spec fn bits_needed(v: nat) -> nat
    decreases v,
{
    if v == 0 {
        0
    } else {
        (1 + bits_needed(v / 2)) as nat
    }
}

/// The encoding is never empty and its length is the number of seven-bit
/// groups that `v` needs, with a single byte for zero.
pub proof fn lemma_varint_encode_len(v: nat)
    ensures
        varint_encode(v).len() == if v == 0 { 1nat } else { (bits_needed(v) + 6) / 7 },
        1 <= varint_encode(v).len(),
    decreases v,
{
    if v < 128 {
        if v > 0 {
            lemma_bits_needed_small(v);
        }
    } else {
        lemma_varint_encode_len(v / 128);
        lemma_bits_needed_div128(v);
        assert(v / 128 > 0) by {
            lemma_div_non_zero(v as int, 128);
        }
    }
}

/// Values below a power of two need no more digits than its exponent.
proof fn lemma_bits_needed_at_most(v: nat, k: nat)
    requires
        v < pow2(k),
    ensures
        bits_needed(v) <= k,
    decreases v,
{
    if v > 0 {
        lemma_pow2_pos(k);
        assert(k >= 1) by {
            if k == 0 {
                lemma2_to64();
            }
        }
        lemma_pow2_adds((k - 1) as nat, 1);
        lemma2_to64();
        assert(v / 2 < pow2((k - 1) as nat)) by {
            lemma_multiply_divide_lt(v as int, pow2((k - 1) as nat) as int, 2);
        }
        lemma_bits_needed_at_most(v / 2, (k - 1) as nat);
    }
}

/// For `0 < v < 128` the value needs between one and seven binary digits.
proof fn lemma_bits_needed_small(v: nat)
    requires
        0 < v < 128,
    ensures
        1 <= bits_needed(v) <= 7,
{
    assert(bits_needed(v) == 1 + bits_needed(v / 2));
    lemma2_to64();
    lemma_bits_needed_at_most(v, 7);
}

/// Dividing by 128 removes exactly seven binary digits.
proof fn lemma_bits_needed_div128(v: nat)
    requires
        v >= 128,
    ensures
        bits_needed(v) == bits_needed(v / 128) + 7,
{
    assert(v / 2 / 2 == v / 4) by (nonlinear_arith);
    assert(v / 4 / 2 == v / 8) by (nonlinear_arith);
    assert(v / 8 / 2 == v / 16) by (nonlinear_arith);
    assert(v / 16 / 2 == v / 32) by (nonlinear_arith);
    assert(v / 32 / 2 == v / 64) by (nonlinear_arith);
    assert(v / 64 / 2 == v / 128) by (nonlinear_arith);
    assert(v / 2 >= 64 && v / 4 >= 32 && v / 8 >= 16 && v / 16 >= 8 && v / 32 >= 4 && v / 64
        >= 2) by (nonlinear_arith)
        requires
            v >= 128,
    ;
    assert(bits_needed(v) == 1 + bits_needed(v / 2));
    assert(bits_needed(v / 2) == 1 + bits_needed(v / 2 / 2));
    assert(bits_needed(v / 4) == 1 + bits_needed(v / 4 / 2));
    assert(bits_needed(v / 8) == 1 + bits_needed(v / 8 / 2));
    assert(bits_needed(v / 16) == 1 + bits_needed(v / 16 / 2));
    assert(bits_needed(v / 32) == 1 + bits_needed(v / 32 / 2));
    assert(bits_needed(v / 64) == 1 + bits_needed(v / 64 / 2));
}

/// Decoding the chain of an encoding recovers the value exactly, consuming
/// exactly the encoding and leaving `rest` untouched, for any value that fits
/// in the available width.
proof fn lemma_varint_encode_parse_chain(v: nat, rest: Seq<u8>, bits: int)
    requires
        bits >= 1,
        v < pow2(bits as nat),
    ensures
        varint_parse_chain(varint_encode(v) + rest, bits) == (VarIntOutcome::Done {
            value: v,
            size: varint_encode(v).len(),
        }),
    decreases v,
{
    let s = varint_encode(v) + rest;
    if v < 128 {
        assert(s[0] == v as u8);
    } else {
        // v >= 128 and v < pow2(bits) force at least eight bits of width.
        lemma2_to64();
        assert(bits >= 8) by {
            if bits < 8 {
                lemma_pow2_within(bits as nat, 7);
            }
        }
        lemma_pow2_adds(7, (bits - 7) as nat);
        // so pow2(bits) == 128 * pow2(bits - 7), and the quotient fits below.
        lemma_multiply_divide_lt(v as int, 128, pow2((bits - 7) as nat) as int);
        assert(s[0] == (128 + (v % 128)) as u8);
        assert(s.drop_first() =~= varint_encode(v / 128) + rest);
        lemma_varint_encode_parse_chain(v / 128, rest, bits - 7);
        lemma_fundamental_div_mod(v as int, 128);
    }
}

/// Powers of two are monotone: used to turn a bound on the value into a bound
/// on the width.
pub proof fn lemma_pow2_within(small: nat, big: nat)
    requires
        small <= big,
    ensures
        pow2(small) <= pow2(big),
    decreases big,
{
    if small < big {
        lemma_pow2_within(small, (big - 1) as nat);
        lemma_pow2_pos((big - 1) as nat);
        lemma_pow2_adds((big - 1) as nat, 1);
        lemma2_to64();
    }
}

/// A successful decode consumes at least one byte; no decode consumes more
/// bytes than are present; and a decoded value always lies below the width's
/// power of two.
pub proof fn lemma_varint_parse_bounds(s: Seq<u8>, bits: nat)
    ensures
        match varint_parse(s, bits) {
            VarIntOutcome::Done { value, size } => 1 <= size <= s.len() && value < pow2(bits),
            VarIntOutcome::TooLong { size } => size <= s.len(),
            VarIntOutcome::Exhausted => true,
        },
{
    lemma_pow2_pos(bits);
    lemma_varint_parse_chain_bounds(s, bits as int);
}

/// Chain-level size bound, by induction over the sequence.
proof fn lemma_varint_parse_chain_bounds(s: Seq<u8>, bits: int)
    ensures
        match varint_parse_chain(s, bits) {
            VarIntOutcome::Done { value, size } => 1 <= size <= s.len(),
            VarIntOutcome::TooLong { size } => size <= s.len(),
            VarIntOutcome::Exhausted => true,
        },
    decreases s.len(),
{
    if bits > 0 && s.len() > 0 && s[0] >= 128 {
        lemma_varint_parse_chain_bounds(s.drop_first(), bits - 7);
    }
}

/// VarInt round trip: decoding an encoding (with anything after it) yields the
/// original value and consumes exactly the encoding's bytes.
pub proof fn lemma_varint_round_trip(v: nat, rest: Seq<u8>, bits: nat)
    requires
        1 <= bits,
        v < pow2(bits),
    ensures
        varint_parse(varint_encode(v) + rest, bits) == (VarIntOutcome::Done {
            value: v,
            size: varint_encode(v).len(),
        }),
{
    lemma_varint_encode_parse_chain(v, rest, bits as int);
    lemma_small_mod(v, pow2(bits));
}

/// VarInt malformed rejection: a sequence that opens with as many
/// continuation bytes as the width admits groups is refused after reading
/// exactly `(bits + 6) / 7` bytes — the width is checked before another byte
/// would be taken — never decoded and never read past that point.
pub proof fn lemma_varint_too_long(s: Seq<u8>, bits: nat)
    requires
        1 <= bits,
        s.len() >= (bits + 6) / 7,
        forall|i: int| 0 <= i < (bits + 6) / 7 ==> s[i] >= 128,
    ensures
        varint_parse(s, bits) == (VarIntOutcome::TooLong { size: ((bits + 6) / 7) as nat }),
{
    lemma_varint_too_long_chain(s, bits as int);
}

/// Chain-level version of the malformed-rejection argument, by induction over
/// the remaining width.
proof fn lemma_varint_too_long_chain(s: Seq<u8>, bits: int)
    requires
        bits >= 1,
        s.len() >= (bits + 6) / 7,
        forall|i: int| 0 <= i < (bits + 6) / 7 ==> s[i] >= 128,
    ensures
        varint_parse_chain(s, bits) == (VarIntOutcome::TooLong { size: ((bits + 6) / 7) as nat }),
    decreases bits,
{
    if bits <= 7 {
        assert((bits + 6) / 7 == 1);
    } else {
        let t = s.drop_first();
        assert((bits - 7 + 6) / 7 == (bits + 6) / 7 - 1);
        assert(forall|i: int| 0 <= i < (bits - 7 + 6) / 7 ==> t[i] == s[i + 1] && t[i] >= 128);
        lemma_varint_too_long_chain(t, bits - 7);
    }
}

} // verus!
