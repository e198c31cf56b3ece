//! Binary64 numbers by their bits. A JSON number that is not an integer,
//! and the number that a body check expects, is a double; the library
//! compares and truncates doubles in integer arithmetic.

use vstd::arithmetic::div_mod::{
    lemma_div_denominator, lemma_div_is_ordered_by_denominator, lemma_div_non_zero,
};
use vstd::prelude::*;

verus! {

/// Two to the power `k`.
pub open spec fn pow2(k: nat) -> nat
    decreases k,
{
    if k == 0 {
        1
    } else {
        2 * pow2((k - 1) as nat)
    }
}

/// A binary64 number: its IEEE 754 bits, and the text that messages show
/// for it.
#[derive(Debug, PartialEq)]
pub struct Double {
    pub bits: u64,
    pub shown: String,
}

impl Clone for Double {
    fn clone(&self) -> (r: Double)
        ensures
            r == *self,
    {
        Double { bits: self.bits, shown: self.shown.clone() }
    }
}

/// Whether the sign bit is set.
pub open spec fn sign_of(bits: u64) -> bool {
    bits >= 0x8000_0000_0000_0000
}

/// The biased exponent: 0 for zero and subnormal numbers, 2047 for
/// infinities and NaN.
pub open spec fn exponent_of(bits: u64) -> int {
    ((bits / 0x10_0000_0000_0000) % 2048) as int
}

/// The 52 bits of the fraction.
pub open spec fn fraction_of(bits: u64) -> int {
    (bits % 0x10_0000_0000_0000) as int
}

/// Whether the bits are those of a NaN.
pub open spec fn is_nan(bits: u64) -> bool {
    exponent_of(bits) == 2047 && fraction_of(bits) != 0
}

/// Whether the bits are those of zero, of either sign.
pub open spec fn is_zero(bits: u64) -> bool {
    exponent_of(bits) == 0 && fraction_of(bits) == 0
}

/// Equality of two doubles: a NaN equals nothing, the two zeros are equal,
/// and any other two doubles are equal where their bits are.
pub open spec fn same_double(a: u64, b: u64) -> bool {
    !is_nan(a) && !is_nan(b) && (a == b || (is_zero(a) && is_zero(b)))
}

/// Whether the double with these bits is the integer `v`. A normal double
/// is its significand, the fraction with the hidden bit, scaled by two to
/// the power of the exponent less 1075.
pub open spec fn double_is(bits: u64, v: int) -> bool {
    if v == 0 {
        is_zero(bits)
    } else {
        let e = exponent_of(bits);
        let significand = 0x10_0000_0000_0000 + fraction_of(bits);
        let magnitude = if v < 0 {
            -v
        } else {
            v
        };
        &&& 1 <= e <= 2046
        &&& sign_of(bits) == (v < 0)
        &&& if e >= 1075 {
            magnitude == significand * pow2((e - 1075) as nat)
        } else {
            magnitude * pow2((1075 - e) as nat) == significand
        }
    }
}

/// The distance between neighbouring doubles around the magnitude `a`, for
/// `a` up to two to the 63rd: the least power of two, from two to the
/// `k`th on, that divides `a` down to fewer than 54 bits.
pub open spec fn spacing(a: nat, k: nat) -> nat
    decreases 11 - k,
{
    if k >= 11 || a / pow2(k) < 0x20_0000_0000_0000 {
        pow2(k)
    } else {
        spacing(a, k + 1)
    }
}

/// `a` rounded to a multiple of `unit`: to the nearest one, and of two
/// equally near ones to the even multiple.
pub open spec fn round_half_even(a: nat, unit: nat) -> nat {
    let q = a / unit;
    let r = a % unit;
    if 2 * r > unit || (2 * r == unit && q % 2 == 1) {
        (q + 1) * unit
    } else {
        q * unit
    }
}

/// The integer that `n` becomes when it is converted to a double.
pub open spec fn nearest_double(n: i64) -> int {
    if n < 0 {
        -(round_half_even((-n) as nat, spacing((-n) as nat, 0)) as int)
    } else {
        round_half_even(n as nat, spacing(n as nat, 0)) as int
    }
}

/// The `i32` that a double becomes by a saturating cast: 0 for a NaN, the
/// nearest bound for what lies outside the range, else the number with
/// its fraction cut off.
pub open spec fn truncated(bits: u64) -> int {
    let e = exponent_of(bits);
    let significand = 0x10_0000_0000_0000 + fraction_of(bits);
    if is_nan(bits) || e < 1023 {
        0
    } else if e >= 1054 {
        if sign_of(bits) {
            i32::MIN as int
        } else {
            i32::MAX as int
        }
    } else if sign_of(bits) {
        -(significand / pow2((1075 - e) as nat) as int)
    } else {
        significand / pow2((1075 - e) as nat) as int
    }
}

/// The powers of two up to the twelfth.
pub proof fn lemma_pow2_small(k: nat)
    requires
        k <= 12,
    ensures
        pow2(k) <= 4096,
        k <= 11 ==> pow2(k) <= 2048,
        k <= 10 ==> pow2(k) <= 1024,
        k == 11 ==> pow2(k) == 2048,
        k == 0 ==> pow2(k) == 1,
{
    reveal_with_fuel(pow2, 13);
}

/// Two to the 22nd.
pub proof fn lemma_pow2_22()
    ensures
        pow2(22) == 0x40_0000,
{
    reveal_with_fuel(pow2, 23);
}

/// Powers of two grow with the exponent.
pub proof fn lemma_pow2_grows(i: nat, j: nat)
    requires
        i <= j,
    ensures
        pow2(i) <= pow2(j),
        pow2(i) >= 1,
    decreases j,
{
    if i < j {
        lemma_pow2_grows(i, (j - 1) as nat);
    } else if i > 0 {
        lemma_pow2_grows((i - 1) as nat, (i - 1) as nat);
    }
}

fn exponent(bits: u64) -> (r: u32)
    ensures
        r == exponent_of(bits),
        r < 2048,
{
    ((bits / 0x10_0000_0000_0000) % 2048) as u32
}

fn significand(bits: u64) -> (r: u64)
    ensures
        r == 0x10_0000_0000_0000 + fraction_of(bits),
        0x10_0000_0000_0000 <= r < 0x20_0000_0000_0000,
{
    0x10_0000_0000_0000 + bits % 0x10_0000_0000_0000
}

/// `x` doubled `k` times, or `None` as soon as it exceeds `limit`.
fn scaled(x: u128, k: u32, limit: u128) -> (r: Option<u128>)
    requires
        limit <= 0x4000_0000_0000_0000_0000_0000_0000_0000,
    ensures
        match r {
            Some(v) => v == x * pow2(k as nat) && v <= limit,
            None => x * pow2(k as nat) > limit,
        },
{
    let mut v: u128 = x;
    let mut i: u32 = 0;
    if v > limit {
        proof {
            lemma_pow2_grows(0, k as nat);
            assert(x * pow2(k as nat) >= x) by (nonlinear_arith)
                requires
                    pow2(k as nat) >= 1,
            ;
        }
        return None;
    }
    proof {
        lemma_pow2_small(0);
        assert(x * pow2(0) == x) by (nonlinear_arith)
            requires
                pow2(0) == 1,
        ;
    }
    while i < k
        invariant
            i <= k,
            v == x * pow2(i as nat),
            v <= limit <= 0x4000_0000_0000_0000_0000_0000_0000_0000,
        decreases k - i,
    {
        proof {
            assert(x * pow2((i + 1) as nat) == 2 * (x * pow2(i as nat))) by (nonlinear_arith)
                requires
                    pow2((i + 1) as nat) == 2 * pow2(i as nat),
            ;
        }
        v = v * 2;
        i += 1;
        if v > limit {
            proof {
                lemma_pow2_grows(i as nat, k as nat);
                assert(x * pow2(k as nat) >= x * pow2(i as nat)) by (nonlinear_arith)
                    requires
                        pow2(k as nat) >= pow2(i as nat),
                ;
            }
            return None;
        }
    }
    Some(v)
}

fn magnitude(n: i64) -> (r: u64)
    ensures
        r == if n < 0 {
            -(n as int)
        } else {
            n as int
        },
{
    if n == i64::MIN {
        0x8000_0000_0000_0000
    } else if n < 0 {
        (-n) as u64
    } else {
        n as u64
    }
}

/// The magnitude of the integer that `n` becomes as a double.
fn nearest_magnitude(a: u64) -> (r: u128)
    requires
        a <= 0x8000_0000_0000_0000,
    ensures
        r == round_half_even(a as nat, spacing(a as nat, 0)),
        r <= 0x1_0000_0000_0000_0000,
        r == 0 <==> a == 0,
{
    let mut unit: u64 = 1;
    let mut k: u32 = 0;
    proof {
        lemma_pow2_small(0);
    }
    while k < 11 && a / unit >= 0x20_0000_0000_0000
        invariant
            k <= 11,
            unit == pow2(k as nat),
            1 <= unit <= 2048,
            k < 11 ==> unit <= 1024,
            spacing(a as nat, k as nat) == spacing(a as nat, 0),
            a <= 0x8000_0000_0000_0000,
            k > 0 ==> a >= 0x20_0000_0000_0000,
        decreases 11 - k,
    {
        unit = unit * 2;
        k += 1;
        proof {
            lemma_pow2_small(k as nat);
        }
    }
    proof {
        lemma_pow2_small(k as nat);
    }
    let q: u64 = a / unit;
    let r: u64 = a % unit;
    assert(spacing(a as nat, 0) == unit);
    assert(q < 0x20_0000_0000_0000);
    let up: bool = 2 * r > unit || (2 * r == unit && q % 2 == 1);
    if up {
        let steps: u128 = (q + 1) as u128;
        assert(steps * unit <= 0x1_0000_0000_0000_0000) by (nonlinear_arith)
            requires
                steps <= 0x20_0000_0000_0000,
                unit <= 2048,
        ;
        assert(steps * unit > 0) by (nonlinear_arith)
            requires
                steps >= 1,
                unit >= 1,
        ;
        assert(a != 0);
        steps * (unit as u128)
    } else {
        let steps: u128 = q as u128;
        assert(steps * unit <= 0x1_0000_0000_0000_0000) by (nonlinear_arith)
            requires
                steps <= 0x20_0000_0000_0000,
                unit <= 2048,
        ;
        proof {
            if a > 0 {
                lemma_div_non_zero(a as int, unit as int);
                assert(steps * unit > 0) by (nonlinear_arith)
                    requires
                        steps >= 1,
                        unit >= 1,
                ;
            }
        }
        steps * (unit as u128)
    }
}

impl Double {
    /// Whether the two doubles are equal as numbers.
    pub fn equals(&self, other: &Double) -> (r: bool)
        ensures
            r == same_double(self.bits, other.bits),
    {
        let a: u64 = self.bits;
        let b: u64 = other.bits;
        let a_nan: bool = exponent(a) == 2047 && a % 0x10_0000_0000_0000 != 0;
        let b_nan: bool = exponent(b) == 2047 && b % 0x10_0000_0000_0000 != 0;
        let a_zero: bool = exponent(a) == 0 && a % 0x10_0000_0000_0000 == 0;
        let b_zero: bool = exponent(b) == 0 && b % 0x10_0000_0000_0000 == 0;
        !a_nan && !b_nan && (a == b || (a_zero && b_zero))
    }

    /// Whether the double equals the integer `n` converted to a double.
    pub fn equals_int(&self, n: i64) -> (r: bool)
        ensures
            r == double_is(self.bits, nearest_double(n)),
    {
        let bits: u64 = self.bits;
        let e: u32 = exponent(bits);
        let target: u128 = nearest_magnitude(magnitude(n));
        if target == 0 {
            return e == 0 && bits % 0x10_0000_0000_0000 == 0;
        }
        if e == 0 || e == 2047 {
            return false;
        }
        let negative: bool = bits >= 0x8000_0000_0000_0000;
        if negative != (n < 0) {
            return false;
        }
        let s: u128 = significand(bits) as u128;
        if e >= 1075 {
            match scaled(s, e - 1075, 0x1_0000_0000_0000_0000) {
                Some(v) => v == target,
                None => false,
            }
        } else {
            match scaled(target, 1075 - e, 0x20_0000_0000_0000) {
                Some(v) => v == s,
                None => false,
            }
        }
    }

    /// The double cast to an `i32`, as `as` does it: 0 for a NaN, the
    /// nearest bound for what lies outside the range, else the number with
    /// its fraction cut off.
    pub fn truncate_to_i32(&self) -> (r: i32)
        ensures
            r == truncated(self.bits),
    {
        let bits: u64 = self.bits;
        let e: u32 = exponent(bits);
        let negative: bool = bits >= 0x8000_0000_0000_0000;
        if (e == 2047 && bits % 0x10_0000_0000_0000 != 0) || e < 1023 {
            return 0;
        }
        if e >= 1054 {
            return if negative {
                i32::MIN
            } else {
                i32::MAX
            };
        }
        let s: u64 = significand(bits);
        let shift: u32 = 1075 - e;
        let mut v: u64 = s;
        let mut i: u32 = 0;
        proof {
            lemma_pow2_small(0);
        }
        while i < shift
            invariant
                i <= shift,
                v == s as int / pow2(i as nat) as int,
            decreases shift - i,
        {
            proof {
                lemma_pow2_grows(0, i as nat);
                lemma_div_denominator(s as int, pow2(i as nat) as int, 2);
            }
            v = v / 2;
            i += 1;
        }
        proof {
            lemma_pow2_22();
            lemma_pow2_grows(22, shift as nat);
            lemma_div_is_ordered_by_denominator(s as int, 0x40_0000, pow2(shift as nat) as int);
        }
        if negative {
            -(v as i32)
        } else {
            v as i32
        }
    }
}

} // verus!
