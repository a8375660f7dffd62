//! Big-endian representation of fixed-width scalars, and executable helpers
//! shared by the reader and writer: converting between integers and their
//! big-endian byte strings, and producing the byte string of a VarInt.

use vstd::prelude::*;
use vstd::arithmetic::div_mod::{lemma_fundamental_div_mod, lemma_multiply_divide_lt};
use vstd::arithmetic::power2::{lemma2_to64, lemma_pow2_adds, pow2};

use crate::varint::varint_encode;

verus! {

/// The unsigned value of a byte string read most-significant byte first.
pub open spec fn be_value(s: Seq<u8>) -> nat
    decreases s.len(),
{
    if s.len() == 0 {
        0
    } else {
        (be_value(s.drop_last()) * 256 + s.last()) as nat
    }
}

/// `n` bytes hold values below `2^(8n)`.
pub proof fn lemma_be_value_bound(s: Seq<u8>)
    ensures
        be_value(s) < pow2(8 * s.len()),
    decreases s.len(),
{
    lemma2_to64();
    if s.len() > 0 {
        lemma_be_value_bound(s.drop_last());
        lemma_pow2_adds(8 * (s.len() - 1) as nat, 8);
        assert(be_value(s.drop_last()) * 256 + 256 <= pow2(8 * (s.len() - 1) as nat) * 256)
            by (nonlinear_arith)
            requires
                be_value(s.drop_last()) < pow2(8 * (s.len() - 1) as nat),
        ;
    }
}

/// The exact value of `pow2` at the width of `u128`.
pub proof fn lemma_pow2_128()
    ensures
        pow2(128) == 0x100000000000000000000000000000000,
{
    lemma2_to64();
    lemma_pow2_adds(64, 64);
}

/// The `len`-byte big-endian byte string of `val`.
pub open spec fn be_bytes_spec(v: nat, len: nat) -> Seq<u8>
    decreases len,
{
    if len == 0 {
        Seq::empty()
    } else {
        be_bytes_spec(v / 256, (len - 1) as nat).push((v % 256) as u8)
    }
}

/// A big-endian byte string holds exactly the value it was written from.
pub proof fn lemma_be_bytes_spec_value(v: nat, len: nat)
    requires
        v < pow2(8 * len),
    ensures
        be_bytes_spec(v, len).len() == len,
        be_value(be_bytes_spec(v, len)) == v,
    decreases len,
{
    lemma2_to64();
    if len == 0 {
    } else {
        lemma_pow2_adds(8 * (len - 1) as nat, 8);
        lemma_multiply_divide_lt(v as int, 256, pow2(8 * (len - 1) as nat) as int);
        lemma_be_bytes_spec_value(v / 256, (len - 1) as nat);
        let s = be_bytes_spec(v, len);
        assert(s.drop_last() =~= be_bytes_spec(v / 256, (len - 1) as nat));
        lemma_fundamental_div_mod(v as int, 256);
    }
}

/// UUID round trip: the sixteen bytes that writing a UUID appends read back
/// as the same 128-bit value, whatever follows them.
pub proof fn lemma_uuid_round_trip(v: u128, rest: Seq<u8>)
    ensures
        (be_bytes_spec(v as nat, 16) + rest).take(16) == be_bytes_spec(v as nat, 16),
        be_value((be_bytes_spec(v as nat, 16) + rest).take(16)) == v,
{
    lemma_pow2_128();
    lemma_be_bytes_spec_value(v as nat, 16);
    assert((be_bytes_spec(v as nat, 16) + rest).take(16) =~= be_bytes_spec(v as nat, 16));
}

/// Write `val` as exactly `len` big-endian bytes.
pub fn be_bytes(val: u128, len: usize) -> (v: Vec<u8>)
    requires
        (val as nat) < pow2(8 * len as nat),
    ensures
        v@.len() == len,
        be_value(v@) == val,
        v@ == be_bytes_spec(val as nat, len as nat),
    decreases len,
{
    if len == 0 {
        proof {
            lemma2_to64();
        }
        Vec::new()
    } else {
        proof {
            lemma2_to64();
            lemma_pow2_adds(8 * (len - 1) as nat, 8);
            lemma_multiply_divide_lt(val as int, 256, pow2(8 * (len - 1) as nat) as int);
        }
        let mut v = be_bytes(val / 256, len - 1);
        let b: u8 = (val % 256) as u8;
        let ghost prefix = v@;
        v.push(b);
        proof {
            assert(v@.drop_last() =~= prefix);
            assert(v@.last() == b);
            assert(be_value(v@) == be_value(prefix) * 256 + b);
            lemma_fundamental_div_mod(val as int, 256);
        }
        v
    }
}

/// Read the big-endian value of up to sixteen bytes.
pub fn be_read(bytes: &Vec<u8>) -> (r: u128)
    requires
        bytes@.len() <= 16,
    ensures
        r as nat == be_value(bytes@),
{
    let mut acc: u128 = 0;
    let mut i: usize = 0;
    while i < bytes.len()
        invariant
            bytes@.len() <= 16,
            i <= bytes@.len(),
            acc as nat == be_value(bytes@.take(i as int)),
        decreases bytes@.len() - i,
    {
        proof {
            let taken = bytes@.take(i as int);
            lemma2_to64();
            lemma_be_value_bound(taken);
            lemma_pow2_adds(8 * i as nat, 8);
            crate::varint::lemma_pow2_within(8 * (i + 1) as nat, 128);
            lemma_pow2_128();
            assert(be_value(taken) * 256 + 256 <= pow2(8 * i as nat) * 256) by (nonlinear_arith)
                requires
                    be_value(taken) < pow2(8 * i as nat),
            ;
            assert(bytes@.take(i + 1).drop_last() =~= taken);
        }
        acc = acc * 256 + (bytes[i] as u128);
        i = i + 1;
    }
    proof {
        assert(bytes@.take(bytes@.len() as int) =~= bytes@);
    }
    acc
}

/// Write `val` as a VarInt byte string: the executable counterpart of
/// [`varint_encode`].
pub fn varint_bytes(val: u128) -> (v: Vec<u8>)
    ensures
        v@ == varint_encode(val as nat),
{
    let mut out: Vec<u8> = Vec::new();
    let mut x: u128 = val;
    proof {
        assert(out@ + varint_encode(x as nat) =~= varint_encode(val as nat));
    }
    while x >= 128
        invariant
            out@ + varint_encode(x as nat) == varint_encode(val as nat),
        decreases x,
    {
        let ghost prev = out@;
        let ghost prev_x = x as nat;
        out.push((x % 128 + 128) as u8);
        x = x / 128;
        proof {
            assert(varint_encode(prev_x) == seq![(128 + (prev_x % 128)) as u8] + varint_encode(
                prev_x / 128,
            ));
            assert(out@ + varint_encode(x as nat) =~= prev + varint_encode(prev_x));
        }
    }
    let ghost prev = out@;
    out.push(x as u8);
    proof {
        assert(varint_encode(x as nat) == seq![x as u8]);
        assert(out@ =~= prev + varint_encode(x as nat));
    }
    out
}

} // verus!
