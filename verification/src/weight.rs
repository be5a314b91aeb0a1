//! Weights in fixed point.
//!
//! A weight is a frequency counted in units of one billionth, so that sums of
//! weights are exact and do not depend on the order of summation. Frequencies
//! are percentages: a corpus that covers everything typed weighs
//! `FULL_SCALE` units.

use vstd::prelude::*;

verus! {

/// Units in a frequency of one: nine decimal places are kept.
pub const UNITS_PER_ONE: u64 = 1_000_000_000;

/// Units in a frequency of one hundred, the whole of a corpus in percent.
pub const FULL_SCALE: u64 = 100_000_000_000;

/// The largest total weight of a corpus. Twice this still fits in 64 bits,
/// so no finger's load overflows even where every symbol strikes it twice.
pub const MAX_TOTAL_WEIGHT: u64 = 0x7fff_ffff_ffff_ffff;

/// Ten to the power `n`.
pub open spec fn pow10(n: nat) -> nat
    decreases n,
{
    if n == 0 {
        1
    } else {
        10 * pow10((n - 1) as nat)
    }
}

/// The units of the decimal number `mantissa` × 10^`exponent`: the number
/// times ten to the ninth, with what lies below one unit dropped.
pub open spec fn decimal_units(mantissa: nat, exponent: int) -> nat {
    if exponent + 9 >= 0 {
        mantissa * pow10((exponent + 9) as nat)
    } else {
        mantissa / pow10((-(exponent + 9)) as nat)
    }
}

/// Powers of ten grow with the exponent, and none is zero.
pub proof fn lemma_pow10_grows(a: nat, b: nat)
    requires
        a <= b,
    ensures
        1 <= pow10(a) <= pow10(b),
    decreases b,
{
    if a == 0 && b == 0 {
    } else if a == b {
        lemma_pow10_grows((a - 1) as nat, (b - 1) as nat);
    } else {
        lemma_pow10_grows(a, (b - 1) as nat);
    }
}

/// The last power of ten that fits in 64 bits, and the first that does not.
pub proof fn lemma_pow10_limits()
    ensures
        pow10(19) == 10_000_000_000_000_000_000,
        pow10(19) <= u64::MAX < pow10(20),
{
    reveal_with_fuel(pow10, 21);
}

/// Ten to the power `n`, for the powers that fit in 64 bits.
pub fn power_of_ten(n: u32) -> (p: u64)
    requires
        n <= 19,
    ensures
        p == pow10(n as nat),
{
    let mut p: u64 = 1;
    let mut i: u32 = 0;
    while i < n
        invariant
            i <= n <= 19,
            p == pow10(i as nat),
        decreases n - i,
    {
        proof {
            lemma_pow10_grows((i + 1) as nat, 19);
            lemma_pow10_limits();
        }
        p = p * 10;
        i += 1;
    }
    p
}

/// The weight of the decimal number `mantissa` × 10^`exponent`, or `None`
/// where it takes more than 64 bits.
pub fn units_from_decimal(mantissa: u64, exponent: i16) -> (units: Option<u64>)
    ensures
        units == (if decimal_units(mantissa as nat, exponent as int) <= u64::MAX {
            Some(decimal_units(mantissa as nat, exponent as int) as u64)
        } else {
            None
        }),
{
    let shift: i32 = exponent as i32 + 9;
    if shift >= 0 {
        if mantissa == 0 {
            assert(0 * pow10(shift as nat) == 0) by (nonlinear_arith);
            return Some(0);
        }
        if shift > 19 {
            proof {
                lemma_pow10_grows(20, shift as nat);
                lemma_pow10_limits();
                let p = pow10(shift as nat);
                assert(mantissa * p >= p) by (nonlinear_arith)
                    requires
                        mantissa >= 1,
                        p >= 0,
                ;
            }
            return None;
        }
        let p = power_of_ten(shift as u32);
        mantissa.checked_mul(p)
    } else {
        let down: i32 = -shift;
        if down > 19 {
            proof {
                lemma_pow10_grows(20, down as nat);
                lemma_pow10_limits();
                let p = pow10(down as nat);
                assert(mantissa as nat / p == 0) by (nonlinear_arith)
                    requires
                        0 <= mantissa < p,
                ;
            }
            return Some(0);
        }
        proof {
            lemma_pow10_grows(0, down as nat);
        }
        let p = power_of_ten(down as u32);
        Some(mantissa / p)
    }
}

} // verus!
