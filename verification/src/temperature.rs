//! The temperature reading. The sensor reports degrees Celsius as a signed
//! 16.16 fixed-point number. The station shows whole degrees: the raw value
//! is taken to single precision, scaled by 2^-16 and cut toward zero. Here
//! that computation is done on integers: single precision keeps 24
//! significant bits and rounds to the nearest value, ties to an even
//! significand, and scaling by a power of two is exact.

use vstd::prelude::*;
use vstd::arithmetic::div_mod::{
    lemma_fundamental_div_mod,
    lemma_mod_pos_bound,
    lemma_div_denominator,
    lemma_basic_div,
    lemma_div_is_ordered,
    lemma_div_multiples_vanish,
    lemma_mod_multiples_basic,
};

verus! {

/// One degree Celsius in the sensor's fixed-point format.
pub const TEMPERATURE_ONE_DEGREE: u32 = 0x1_0000;

/// Integers below this magnitude are exact in single precision.
pub const F32_EXACT_LIMIT: u64 = 0x100_0000;

/// The distance between neighbouring single-precision values around the
/// magnitude `m`.
pub open spec fn f32_spacing(m: nat) -> nat
    decreases m,
{
    if m < F32_EXACT_LIMIT {
        1
    } else {
        2 * f32_spacing(m / 2)
    }
}

/// The multiple of `e` nearest to `m`; between two equally near ones, the
/// even multiple.
pub open spec fn round_half_even(m: nat, e: nat) -> nat
    recommends
        e > 0,
{
    let r = m % e;
    if 2 * r < e {
        (m - r) as nat
    } else if 2 * r > e {
        (m - r + e) as nat
    } else if (m / e) % 2 == 0 {
        (m - r) as nat
    } else {
        (m - r + e) as nat
    }
}

/// The value of the integer `x` in single precision.
pub open spec fn f32_of_int(x: int) -> int {
    if x >= 0 {
        round_half_even(x as nat, f32_spacing(x as nat)) as int
    } else {
        -(round_half_even((-x) as nat, f32_spacing((-x) as nat)) as int)
    }
}

/// The whole degrees shown for the raw reading `raw`: the single-precision
/// reading scaled to degrees and cut toward zero, when that fits a `u16`.
pub open spec fn whole_celsius(raw: int) -> Option<u16> {
    let r = f32_of_int(raw);
    if r <= -(TEMPERATURE_ONE_DEGREE as int) {
        None
    } else if r < 0 {
        Some(0u16)
    } else if r / (TEMPERATURE_ONE_DEGREE as int) <= u16::MAX {
        Some((r / (TEMPERATURE_ONE_DEGREE as int)) as u16)
    } else {
        None
    }
}

proof fn lemma_spacing_step(m: nat)
    requires
        m >= F32_EXACT_LIMIT,
    ensures
        f32_spacing(m) == 2 * f32_spacing(m / 2),
{
}

/// Rounds the magnitude `m` to single precision.
fn f32_round_magnitude(m: u64) -> (r: u64)
    requires
        m <= 0x8000_0000,
    ensures
        r == round_half_even(m as nat, f32_spacing(m as nat)),
{
    let mut e: u64 = 1;
    let mut t: u64 = m;
    while t >= F32_EXACT_LIMIT
        invariant
            1 <= e <= 0x1_0000_0000,
            m <= 0x8000_0000,
            t == m / e,
            f32_spacing(m as nat) == e * f32_spacing(t as nat),
        decreases t,
    {
        proof {
            if e > m {
                lemma_basic_div(m as int, e as int);
            }
            lemma_spacing_step(t as nat);
            lemma_div_denominator(m as int, e as int, 2);
            assert(e * (2 * f32_spacing((t / 2) as nat)) == (e * 2) * f32_spacing((t / 2) as nat))
                by (nonlinear_arith);
        }
        t = t / 2;
        e = e * 2;
    }
    assert(f32_spacing(t as nat) == 1);
    assert(e * f32_spacing(t as nat) == e) by (nonlinear_arith)
        requires
            f32_spacing(t as nat) == 1,
    ;
    assert(f32_spacing(m as nat) == e);
    proof {
        lemma_fundamental_div_mod(m as int, e as int);
        lemma_mod_pos_bound(m as int, e as int);
    }
    let r = m % e;
    let q = m / e;
    if 2 * r < e {
        m - r
    } else if 2 * r > e {
        m - r + e
    } else if q % 2 == 0 {
        m - r
    } else {
        m - r + e
    }
}

/// The whole degrees Celsius shown for the raw fixed-point reading `raw`;
/// `None` when the value does not fit a `u16` (at or below -1 degree).
pub fn whole_celsius_from_raw(raw: i32) -> (d: Option<u16>)
    ensures
        d == whole_celsius(raw as int),
{
    let m: u64 = if raw < 0 {
        (-(raw as i64)) as u64
    } else {
        raw as u64
    };
    let rounded = f32_round_magnitude(m);
    if raw < 0 {
        if rounded >= TEMPERATURE_ONE_DEGREE as u64 {
            None
        } else {
            proof {
                if rounded > 0 {
                    lemma_basic_div(rounded as int, TEMPERATURE_ONE_DEGREE as int);
                }
            }
            Some(0)
        }
    } else {
        let w = rounded / (TEMPERATURE_ONE_DEGREE as u64);
        if w <= u16::MAX as u64 {
            Some(w as u16)
        } else {
            None
        }
    }
}

proof fn lemma_spacing_small(m: nat)
    requires
        m < F32_EXACT_LIMIT,
    ensures
        f32_spacing(m) == 1,
        round_half_even(m, f32_spacing(m)) == m,
{
}

proof fn lemma_spacing_bound(m: nat)
    requires
        m >= F32_EXACT_LIMIT,
    ensures
        f32_spacing(m) * 0x80_0000 <= m,
        f32_spacing(m) >= 1,
    decreases m,
{
    let h = m / 2;
    lemma_spacing_step(m);
    if h >= F32_EXACT_LIMIT {
        lemma_spacing_bound(h);
        let s = f32_spacing(h);
        assert(2 * s * 0x80_0000 <= 2 * h) by (nonlinear_arith)
            requires
                s * 0x80_0000 <= h,
        ;
    } else {
        assert(f32_spacing(h) == 1);
    }
}

/// Below 2^24 (256 degrees) single precision is exact, so the shown
/// temperature is the reading divided by 2^16, cut toward zero; readings
/// between -1 and 0 degrees show 0.
pub proof fn lemma_whole_celsius_exact(raw: int)
    requires
        -(F32_EXACT_LIMIT as int) < raw < F32_EXACT_LIMIT,
    ensures
        raw >= 0 ==> whole_celsius(raw) == Some((raw / (TEMPERATURE_ONE_DEGREE as int)) as u16),
        -(TEMPERATURE_ONE_DEGREE as int) < raw < 0 ==> whole_celsius(raw) == Some(0u16),
        raw <= -(TEMPERATURE_ONE_DEGREE as int) ==> whole_celsius(raw) is None,
{
    if raw >= 0 {
        lemma_spacing_small(raw as nat);
        lemma_div_is_ordered(raw, F32_EXACT_LIMIT as int, TEMPERATURE_ONE_DEGREE as int);
    } else {
        lemma_spacing_small((-raw) as nat);
    }
}

/// For every 32-bit reading, a temperature is shown exactly when the
/// reading is above -1 degree, and it is at most 32768 degrees.
pub proof fn lemma_whole_celsius_defined(raw: i32)
    ensures
        whole_celsius(raw as int) is Some <==> raw > -(TEMPERATURE_ONE_DEGREE as int),
        whole_celsius(raw as int) matches Some(d) ==> d <= 0x8000,
{
    let m: nat = if raw < 0 {
        (-raw) as nat
    } else {
        raw as nat
    };
    if m < F32_EXACT_LIMIT {
        lemma_spacing_small(m);
        lemma_div_is_ordered(m as int, F32_EXACT_LIMIT as int, TEMPERATURE_ONE_DEGREE as int);
    } else {
        lemma_spacing_bound(m);
        let e = f32_spacing(m);
        lemma_fundamental_div_mod(m as int, e as int);
        lemma_mod_pos_bound(m as int, e as int);
        assert(e <= 0x100) by (nonlinear_arith)
            requires
                e * 0x80_0000 <= m,
                m <= 0x8000_0000,
        ;
        let r = round_half_even(m, e);
        assert(m - e < r <= m + e);
        lemma_div_is_ordered(r as int, 0x8000_0100, TEMPERATURE_ONE_DEGREE as int);
    }
}

/// Whether `e` is a power of two.
pub open spec fn is_power_of_two(e: nat) -> bool
    decreases e,
{
    if e <= 1 {
        e == 1
    } else {
        e % 2 == 0 && is_power_of_two(e / 2)
    }
}

/// The spacing of single-precision values is a power of two: one below
/// 2^24, and above it the spacing that leaves the magnitude 24 significant
/// bits (between 2^23 and 2^24 multiples of the spacing).
pub proof fn lemma_f32_spacing_keeps_24_bits(m: nat)
    ensures
        is_power_of_two(f32_spacing(m)),
        f32_spacing(m) >= 1,
        m < 0x100_0000 ==> f32_spacing(m) == 1,
        m >= 0x100_0000 ==> 0x80_0000 * f32_spacing(m) <= m < 0x100_0000 * f32_spacing(m),
    decreases m,
{
    if m >= F32_EXACT_LIMIT {
        let h = m / 2;
        lemma_spacing_step(m);
        lemma_f32_spacing_keeps_24_bits(h);
        let s = f32_spacing(h);
        assert((2 * s) / 2 == s);
        assert((2 * s) % 2 == 0);
    }
}

/// Rounding to single precision goes to the nearest multiple of the
/// spacing, to the even multiple when two are equally near, and keeps the
/// sign.
pub proof fn lemma_f32_rounds_to_nearest_even(x: int)
    ensures
        ({
            let m: nat = if x >= 0 {
                x as nat
            } else {
                (-x) as nat
            };
            let e = f32_spacing(m);
            let r: int = if x >= 0 {
                f32_of_int(x)
            } else {
                -f32_of_int(x)
            };
            &&& r >= 0
            &&& r % (e as int) == 0
            &&& 2 * (r - m) <= e
            &&& 2 * (m - r) <= e
            &&& (2 * (r - m) == e || 2 * (m - r) == e) ==> (r / (e as int)) % 2 == 0
        }),
{
    let m: nat = if x >= 0 {
        x as nat
    } else {
        (-x) as nat
    };
    lemma_f32_spacing_keeps_24_bits(m);
    let e = f32_spacing(m);
    lemma_fundamental_div_mod(m as int, e as int);
    lemma_mod_pos_bound(m as int, e as int);
    let q = (m / e) as int;
    let rem = (m % e) as int;
    lemma_mod_multiples_basic(q, e as int);
    lemma_mod_multiples_basic(q + 1, e as int);
    lemma_div_multiples_vanish(q, e as int);
    lemma_div_multiples_vanish(q + 1, e as int);
    assert(q * e == e * q) by (nonlinear_arith);
    assert((q + 1) * e == e * (q + 1)) by (nonlinear_arith);
    assert(m - rem == e * q);
    assert(m - rem + e == e * (q + 1)) by (nonlinear_arith)
        requires
            m - rem == e * q,
    ;
    assert(q >= 0) by (nonlinear_arith)
        requires
            m - rem == e * q,
            m - rem >= 0,
            e >= 1,
    ;
}

} // verus!
