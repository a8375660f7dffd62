//! Zigzag transform: a bijection between a signed integer type and its
//! unsigned counterpart of equal width that keeps small magnitudes small, so
//! that negative values still encode compactly as VarInts.  Non-negative `n`
//! maps to `2n`, negative `n` maps to `-2n - 1`; the inverse halves even
//! values and maps odd values below zero.

use vstd::prelude::*;

verus! {

/// Mathematical zigzag map, independent of the width.
pub open spec fn zigzag_spec(n: int) -> int {
    if n >= 0 {
        2 * n
    } else {
        -2 * n - 1
    }
}

/// Mathematical inverse of [`zigzag_spec`].
pub open spec fn unzigzag_spec(v: int) -> int {
    if v % 2 == 0 {
        v / 2
    } else {
        -(v / 2) - 1
    }
}

/// Zigzag round trip: decoding an encoded value gives it back, for every
/// integer and hence for every signed width.
pub proof fn lemma_zigzag_round_trip(n: int)
    ensures
        unzigzag_spec(zigzag_spec(n)) == n,
{
    if n >= 0 {
        assert((2 * n) % 2 == 0 && (2 * n) / 2 == n) by (nonlinear_arith);
    } else {
        let k = -n - 1;
        assert(zigzag_spec(n) == 2 * k + 1);
        assert((2 * k + 1) % 2 == 1 && (2 * k + 1) / 2 == k) by (nonlinear_arith)
            requires
                k >= 0,
        ;
    }
}

/// Zigzag round trip, the other way: encoding a decoded value gives it back,
/// for every non-negative integer.
pub proof fn lemma_unzigzag_round_trip(v: int)
    requires
        v >= 0,
    ensures
        zigzag_spec(unzigzag_spec(v)) == v,
{
    if v % 2 == 0 {
        assert(2 * (v / 2) == v) by (nonlinear_arith)
            requires
                v >= 0 && v % 2 == 0,
        ;
    } else {
        assert(v % 2 == 1 && 2 * (v / 2) == v - 1) by (nonlinear_arith)
            requires
                v >= 0 && v % 2 != 0,
        ;
    }
}

/// The zigzag map between a signed type and the unsigned type of equal width,
/// in both directions.
pub trait Zigzag<T> {
    fn zigzag(&self) -> T;
}

impl Zigzag<u8> for i8 {
    fn zigzag(&self) -> (r: u8)
        ensures
            r == zigzag_spec(*self as int),
    {
        if *self >= 0 {
            (*self as u8) * 2
        } else {
            ((-1 - *self) as u8) * 2 + 1
        }
    }
}

impl Zigzag<i8> for u8 {
    fn zigzag(&self) -> (r: i8)
        ensures
            r == unzigzag_spec(*self as int),
    {
        if *self % 2 == 0 {
            (*self / 2) as i8
        } else {
            -((*self / 2) as i8) - 1
        }
    }
}

impl Zigzag<u16> for i16 {
    fn zigzag(&self) -> (r: u16)
        ensures
            r == zigzag_spec(*self as int),
    {
        if *self >= 0 {
            (*self as u16) * 2
        } else {
            ((-1 - *self) as u16) * 2 + 1
        }
    }
}

impl Zigzag<i16> for u16 {
    fn zigzag(&self) -> (r: i16)
        ensures
            r == unzigzag_spec(*self as int),
    {
        if *self % 2 == 0 {
            (*self / 2) as i16
        } else {
            -((*self / 2) as i16) - 1
        }
    }
}

impl Zigzag<u32> for i32 {
    fn zigzag(&self) -> (r: u32)
        ensures
            r == zigzag_spec(*self as int),
    {
        if *self >= 0 {
            (*self as u32) * 2
        } else {
            ((-1 - *self) as u32) * 2 + 1
        }
    }
}

impl Zigzag<i32> for u32 {
    fn zigzag(&self) -> (r: i32)
        ensures
            r == unzigzag_spec(*self as int),
    {
        if *self % 2 == 0 {
            (*self / 2) as i32
        } else {
            -((*self / 2) as i32) - 1
        }
    }
}

impl Zigzag<u64> for i64 {
    fn zigzag(&self) -> (r: u64)
        ensures
            r == zigzag_spec(*self as int),
    {
        if *self >= 0 {
            (*self as u64) * 2
        } else {
            ((-1 - *self) as u64) * 2 + 1
        }
    }
}

impl Zigzag<i64> for u64 {
    fn zigzag(&self) -> (r: i64)
        ensures
            r == unzigzag_spec(*self as int),
    {
        if *self % 2 == 0 {
            (*self / 2) as i64
        } else {
            -((*self / 2) as i64) - 1
        }
    }
}

impl Zigzag<u128> for i128 {
    fn zigzag(&self) -> (r: u128)
        ensures
            r == zigzag_spec(*self as int),
    {
        if *self >= 0 {
            (*self as u128) * 2
        } else {
            ((-1 - *self) as u128) * 2 + 1
        }
    }
}

impl Zigzag<i128> for u128 {
    fn zigzag(&self) -> (r: i128)
        ensures
            r == unzigzag_spec(*self as int),
    {
        if *self % 2 == 0 {
            (*self / 2) as i128
        } else {
            -((*self / 2) as i128) - 1
        }
    }
}

impl Zigzag<usize> for isize {
    fn zigzag(&self) -> (r: usize)
        ensures
            r == zigzag_spec(*self as int),
    {
        if *self >= 0 {
            (*self as usize) * 2
        } else {
            ((-1 - *self) as usize) * 2 + 1
        }
    }
}

impl Zigzag<isize> for usize {
    fn zigzag(&self) -> (r: isize)
        ensures
            r == unzigzag_spec(*self as int),
    {
        if *self % 2 == 0 {
            (*self / 2) as isize
        } else {
            -((*self / 2) as isize) - 1
        }
    }
}

} // verus!
