//! Fixed-point style scalars.
//!
//! Style values (pixel lengths, fractions of one, flex weights) are carried
//! as `i64` integers counting thousandths of a unit, so that every
//! computation in the library is exact integer arithmetic. The binary wire
//! format stores such values as IEEE-754 single-precision bit patterns; this
//! module converts a bit pattern to the scalar it denotes, rounding to the
//! nearest thousandth, and gives the reverse (nearest bit pattern of a
//! scalar) as a specification, so that decoding an encoded scalar can be
//! proved to give the scalar back.

use vstd::arithmetic::div_mod::{
    lemma_fundamental_div_mod, lemma_fundamental_div_mod_converse_div,
};
use vstd::arithmetic::power2::{
    lemma2_to64, lemma2_to64_rest, lemma_pow2_adds, lemma_pow2_pos, lemma_pow2_strictly_increases,
    lemma_pow2_unfold, pow2,
};
use vstd::prelude::*;

verus! {

/// Scalar units per CSS pixel.
pub const SCALAR_PER_PX: i64 = 1000;

/// Saturation bound: scalars whose magnitude would exceed this are clamped.
pub const SCALAR_SAT: i64 = 1_000_000_000_000_000;

/// One greater than the largest biased exponent whose value contributes
/// a fractional part (bias 127 plus the 23 mantissa bits).
pub const EXP_ONE: u32 = 150;

/// Sign bit of a single-precision bit pattern.
pub open spec fn f32_sign(bits: u32) -> bool {
    bits / 0x8000_0000 == 1
}

/// Biased exponent of a single-precision bit pattern.
pub open spec fn f32_exp(bits: u32) -> int {
    ((bits / 0x0080_0000) % 256) as int
}

/// Fraction field of a single-precision bit pattern.
pub open spec fn f32_frac(bits: u32) -> int {
    (bits % 0x0080_0000) as int
}

/// Quotient of `n` by `d` rounded to the nearest integer, halves away
/// from zero; meant for `n >= 0` and even `d > 0`.
pub open spec fn round_div(n: int, d: int) -> int {
    (n + d / 2) / d
}

/// Magnitude, in thousandths, denoted by a single-precision bit pattern:
/// the represented value times 1000, rounded to the nearest integer and
/// clamped to [`SCALAR_SAT`]. Zero, subnormal, infinite and not-a-number
/// patterns all denote zero (a subnormal magnitude rounds to zero anyway).
pub open spec fn scalar_mag_of_bits(bits: u32) -> int {
    let e = f32_exp(bits);
    let m = f32_frac(bits) + 0x0080_0000;
    if e == 0 || e == 255 {
        0
    } else if e >= EXP_ONE {
        let v = 1000 * m * pow2((e - EXP_ONE) as nat);
        if v > SCALAR_SAT {
            SCALAR_SAT as int
        } else {
            v
        }
    } else {
        round_div(1000 * m, pow2((EXP_ONE - e) as nat) as int)
    }
}

/// Signed scalar denoted by a single-precision bit pattern.
pub open spec fn scalar_of_bits(bits: u32) -> int {
    if f32_sign(bits) {
        -scalar_mag_of_bits(bits)
    } else {
        scalar_mag_of_bits(bits)
    }
}

/// The number of doublings that bring `a` up to 2^23 * 1000, i.e. the
/// smallest `s` with `a * pow2(s) >= 8388608000`; the normalization shift
/// used when encoding the magnitude `a` (in thousandths) as a bit pattern.
pub open spec fn norm_shift(a: int) -> nat
    decreases 8388608000 - a,
        when 1 <= a
{
    if a >= 8388608000 {
        0
    } else if 2 * a >= 8388608000 {
        1
    } else {
        (1 + norm_shift(2 * a)) as nat
    }
}

/// The single-precision bit pattern nearest to `m` thousandths, for
/// magnitudes up to eight million pixels. This is the reference encoding
/// that wire-format producers use for scalar fields.
pub open spec fn scalar_to_bits(m: int) -> u32 {
    if m == 0 {
        0u32
    } else {
        let a = if m >= 0 {
            m
        } else {
            -m
        };
        let sign: int = if m < 0 {
            0x8000_0000
        } else {
            0
        };
        let s = norm_shift(a);
        let m0 = round_div(a * pow2(s) as int, 1000);
        if m0 == 0x0100_0000 {
            (sign + (EXP_ONE + 1 - s) * 0x0080_0000) as u32
        } else {
            (sign + (EXP_ONE - s) * 0x0080_0000 + (m0 - 0x0080_0000)) as u32
        }
    }
}

/// Convert a single-precision bit pattern to the scalar it denotes.
pub fn scalar_from_bits(bits: u32) -> (m: i64)
    ensures
        m == scalar_of_bits(bits),
        -SCALAR_SAT <= m <= SCALAR_SAT,
{
    let sign = bits >= 0x8000_0000;
    let e: u32 = (bits / 0x0080_0000) % 256;
    let f: u32 = bits % 0x0080_0000;
    proof {
        assert(f32_sign(bits) == sign) by (nonlinear_arith)
            requires
                sign == (bits >= 0x8000_0000),
                bits < 0x1_0000_0000,
        ;
    }
    let mant: u64 = (f as u64) + 0x0080_0000;
    let mag: i64;
    if e == 0 || e == 255 {
        mag = 0;
    } else if e >= EXP_ONE {
        let t = e - EXP_ONE;
        if t >= 17 {
            proof {
                lemma_pow2_le(17nat, t as nat);
                lemma2_to64();
                assert(1000 * (f32_frac(bits) + 0x0080_0000) * pow2(t as nat) > SCALAR_SAT)
                    by (nonlinear_arith)
                    requires
                        pow2(t as nat) >= 131072,
                        f32_frac(bits) + 0x0080_0000 >= 0x0080_0000,
                ;
            }
            mag = SCALAR_SAT;
        } else {
            let p = pow2_u64(t as u64);
            proof {
                lemma2_to64();
                if t < 16 {
                    lemma_pow2_strictly_increases(t as nat, 16nat);
                }
                assert(1000 * mant * p <= 1000 * 0x0100_0000 * 65536) by (nonlinear_arith)
                    requires
                        mant <= 0x0100_0000,
                        p <= 65536,
                ;
            }
            let v: u64 = 1000u64 * mant * p;
            if v > SCALAR_SAT as u64 {
                mag = SCALAR_SAT;
            } else {
                mag = v as i64;
            }
        }
    } else {
        let s = EXP_ONE - e;
        let n: u64 = 1000u64 * mant;
        if s >= 35 {
            proof {
                lemma_pow2_le(35nat, s as nat);
                lemma2_to64();
                lemma2_to64_rest();
                assert(pow2(s as nat) >= 0x8_0000_0000);
                lemma_pow2_unfold(s as nat);
                assert(pow2(s as nat) / 2 == pow2((s - 1) as nat)) by {
                    lemma_pow2_adds((s - 1) as nat, 1);
                    lemma2_to64();
                };
                lemma_pow2_le(34nat, (s - 1) as nat);
                assert(n + pow2(s as nat) / 2 < pow2(s as nat));
                assert(round_div(n as int, pow2(s as nat) as int) == 0) by {
                    vstd::arithmetic::div_mod::lemma_basic_div(
                        n + pow2(s as nat) / 2,
                        pow2(s as nat) as int,
                    );
                };
            }
            mag = 0;
        } else {
            let d: u64 = pow2_u64(s as u64);
            proof {
                lemma_pow2_pos(s as nat);
                lemma2_to64();
                lemma_pow2_strictly_increases(0, s as nat);
                if s < 34 {
                    lemma_pow2_strictly_increases(s as nat, 34nat);
                }
                assert((n as int + d as int / 2) / d as int <= n as int) by (nonlinear_arith)
                    requires
                        d >= 2,
                        n >= 0,
                ;
            }
            mag = ((n + d / 2) / d) as i64;
        }
    }
    proof {
        assert(mag == scalar_mag_of_bits(bits));
        assert(0 <= mag <= SCALAR_SAT);
    }
    if sign {
        -mag
    } else {
        mag
    }
}

/// 2 to the power `k`, for exponents small enough to fit in a `u64`.
pub fn pow2_u64(k: u64) -> (r: u64)
    requires
        k <= 62,
    ensures
        r == pow2(k as nat),
{
    let mut r: u64 = 1;
    let mut i: u64 = 0;
    proof {
        lemma2_to64();
    }
    while i < k
        invariant
            i <= k <= 62,
            r == pow2(i as nat),
        decreases k - i,
    {
        proof {
            lemma_pow2_strictly_increases(i as nat, 62nat);
            lemma2_to64();
            lemma2_to64_rest();
            lemma_pow2_unfold((i + 1) as nat);
        }
        r = r * 2;
        i = i + 1;
    }
    r
}

/// Decoding the reference encoding of a scalar gives the scalar back,
/// whenever the scalar is a whole multiple of an eighth of a unit (so its
/// value is exactly representable) and within a million units.
pub proof fn lemma_scalar_round_trip(m: int)
    requires
        m % 125 == 0,
        -1_000_000_000 <= m <= 1_000_000_000,
    ensures
        scalar_of_bits(scalar_to_bits(m)) == m,
{
    if m == 0 {
        assert(scalar_to_bits(0) == 0u32);
        assert(f32_exp(0) == 0);
        assert(scalar_of_bits(0u32) == 0);
    } else {
        let a = if m >= 0 {
            m
        } else {
            -m
        };
        lemma_norm_shift_bounds(a);
        let s = norm_shift(a);
        let p = pow2(s) as int;
        assert(125 <= a <= 1_000_000_000);
        // s >= 4: a * 8 < 8388608000 because a <= 1_000_000_000
        lemma_pow2_unfold(1);
        lemma_pow2_unfold(2);
        lemma_pow2_unfold(3);
        lemma2_to64();
        if s <= 3 {
            lemma_pow2_le(s, 3nat);
            assert(a * p <= a * 8) by (nonlinear_arith)
                requires
                    p <= 8,
                    a >= 0,
            ;
            assert(a * 8 < 8388608000);
            assert(false);
        }
        assert(s >= 4);
        assert(s <= 26) by {
            // minimality: a * pow2(s-1) < 8388608000, and a >= 125
            if s >= 27 {
                lemma_pow2_le(26nat, (s - 1) as nat);
                assert(pow2(26nat) == 0x400_0000);
                assert(a * pow2((s - 1) as nat) >= 125 * 0x400_0000) by (nonlinear_arith)
                    requires
                        a >= 125,
                        pow2((s - 1) as nat) >= 0x400_0000,
                ;
            }
        };
        // 1000 divides a * 2^s
        let k = a / 125;
        assert(a == 125 * k) by {
            lemma_fundamental_div_mod(a, 125);
        };
        lemma_pow2_adds(3, (s - 3) as nat);
        let q = k * pow2((s - 3) as nat) as int;
        assert(a * p == 1000 * q) by (nonlinear_arith)
            requires
                a == 125 * k,
                p == 8 * pow2((s - 3) as nat),
                q == k * pow2((s - 3) as nat),
        ;
        // round_div(a * p, 1000) == q exactly
        let m0 = round_div(a * p, 1000);
        assert(m0 == q) by {
            lemma_fundamental_div_mod_converse_div(1000 * q + 500, 1000, q, 500);
        };
        // range of m0: 2^23 <= m0 < 2^24
        assert(8388608000 <= a * p) by {
            lemma_norm_shift_bounds(a);
        };
        assert(a * pow2((s - 1) as nat) < 8388608000);
        lemma_pow2_adds((s - 1) as nat, 1);
        lemma_pow2_unfold(1);
        assert(a * p == 2 * (a * pow2((s - 1) as nat))) by (nonlinear_arith)
            requires
                p == pow2((s - 1) as nat) * 2,
        ;
        assert(a * p < 16777216000);
        assert(0x0080_0000 <= q < 0x0100_0000) by (nonlinear_arith)
            requires
                1000 * q == a * p,
                8388608000 <= a * p < 16777216000,
        ;
        let e = EXP_ONE - s;
        assert(124 <= e <= 146);
        let sign: int = if m < 0 {
            0x8000_0000
        } else {
            0
        };
        let bits_int = sign + e * 0x0080_0000 + (m0 - 0x0080_0000);
        let f = m0 - 0x0080_0000;
        assert(0 <= f < 0x0080_0000);
        assert(scalar_to_bits(m) == bits_int as u32);
        assert(e * 0x0080_0000 <= 146 * 0x0080_0000) by (nonlinear_arith)
            requires
                124 <= e <= 146,
        ;
        assert(e * 0x0080_0000 >= 124 * 0x0080_0000) by (nonlinear_arith)
            requires
                124 <= e <= 146,
        ;
        assert(0 <= bits_int < 0x1_0000_0000);
        let bits = bits_int as u32;
        // field extraction round-trips
        assert(bits / 0x0080_0000 == (if m < 0 { 256int } else { 0int }) + e) by {
            let hi: int = if m < 0 {
                256 + e
            } else {
                e
            };
            assert(bits_int == hi * 0x0080_0000 + f) by (nonlinear_arith)
                requires
                    bits_int == sign + e * 0x0080_0000 + f,
                    sign == (if m < 0 { 0x8000_0000int } else { 0int }),
                    hi == (if m < 0 { 256 + e } else { e }),
            ;
            lemma_fundamental_div_mod_converse_div(bits_int, 0x0080_0000, hi, f);
        };
        assert(f32_exp(bits) == e) by {
            let hi: int = if m < 0 {
                256 + e
            } else {
                e
            };
            assert(hi % 256 == e) by {
                if m < 0 {
                    vstd::arithmetic::div_mod::lemma_fundamental_div_mod_converse_mod(
                        256 + e,
                        256,
                        1,
                        e,
                    );
                } else {
                    vstd::arithmetic::div_mod::lemma_fundamental_div_mod_converse_mod(
                        e,
                        256,
                        0,
                        e,
                    );
                }
            };
        };
        assert(f32_frac(bits) == f) by {
            let hi: int = if m < 0 {
                256 + e
            } else {
                e
            };
            assert(bits_int == hi * 0x0080_0000 + f) by (nonlinear_arith)
                requires
                    bits_int == sign + e * 0x0080_0000 + f,
                    sign == (if m < 0 { 0x8000_0000int } else { 0int }),
                    hi == (if m < 0 { 256 + e } else { e }),
            ;
            vstd::arithmetic::div_mod::lemma_fundamental_div_mod_converse_mod(
                bits_int,
                0x0080_0000,
                hi,
                f,
            );
        };
        assert(f32_sign(bits) == (m < 0)) by {
            let lo = e * 0x0080_0000 + f;
            assert(0 <= lo < 0x8000_0000);
            if m < 0 {
                lemma_fundamental_div_mod_converse_div(bits_int, 0x8000_0000, 1, lo);
            } else {
                lemma_fundamental_div_mod_converse_div(bits_int, 0x8000_0000, 0, lo);
            }
        };
        // decode: e < EXP_ONE, shift is s, numerator 1000 * m0 == a * p
        assert(1 <= e < 150);
        assert(scalar_mag_of_bits(bits) == round_div(1000 * (f + 0x0080_0000), p));
        assert(1000 * (f + 0x0080_0000) == a * p);
        assert(round_div(a * p, p) == a) by {
            assert(p >= 16);
            assert(a * p + p / 2 == a * p + p / 2);
            lemma_fundamental_div_mod_converse_div(a * p + p / 2, p, a, p / 2);
        };
        assert(scalar_mag_of_bits(bits) == a);
        if m < 0 {
            assert(scalar_of_bits(bits) == -a == m);
        } else {
            assert(scalar_of_bits(bits) == a == m);
        }
    }
}

/// `pow2` is monotone (non-strict).
proof fn lemma_pow2_le(e1: nat, e2: nat)
    requires
        e1 <= e2,
    ensures
        pow2(e1) <= pow2(e2),
{
    if e1 < e2 {
        lemma_pow2_strictly_increases(e1, e2);
    }
}

/// The normalization shift brings the magnitude into [2^23 * 1000, 2^24 * 1000).
proof fn lemma_norm_shift_bounds(a: int)
    requires
        1 <= a,
    ensures
        a * pow2(norm_shift(a)) >= 8388608000,
        norm_shift(a) >= 1 ==> a * pow2((norm_shift(a) - 1) as nat) < 8388608000,
    decreases 8388608000 - a,
{
    lemma2_to64();
    if a >= 8388608000 {
        assert(norm_shift(a) == 0);
        assert(a * 1 == a);
    } else if 2 * a >= 8388608000 {
        assert(norm_shift(a) == 1);
        lemma_pow2_unfold(1);
        assert(a * 2 == 2 * a);
        assert(a * 1 == a);
    } else {
        lemma_norm_shift_bounds(2 * a);
        let s2 = norm_shift(2 * a);
        assert(norm_shift(a) == 1 + s2);
        lemma_pow2_adds(1, s2);
        lemma_pow2_unfold(1);
        assert(a * pow2(1 + s2) == (2 * a) * pow2(s2)) by (nonlinear_arith)
            requires
                pow2(1 + s2) == 2 * pow2(s2),
        ;
        if s2 >= 1 {
            assert((2 * a) * pow2((s2 - 1) as nat) < 8388608000);
            lemma_pow2_adds(1, (s2 - 1) as nat);
            assert(a * pow2(s2) == (2 * a) * pow2((s2 - 1) as nat)) by (nonlinear_arith)
                requires
                    pow2(s2) == 2 * pow2((s2 - 1) as nat),
            ;
        } else {
            assert(s2 == 0);
            assert(a * pow2(0nat) == a) by (nonlinear_arith)
                requires
                    pow2(0nat) == 1,
            ;
        }
    }
}

} // verus!
