//! The shared CSS-like value grammar.
//!
//! Both style decoders read dimension, length-percentage, grid-placement
//! and track-sizing values from short byte strings (`"200px"`, `"50%"`,
//! `"minmax(100px, 1fr)"`). Parsing never fails: a malformed token resolves
//! to a fixed fallback value. Numbers become fixed-point thousandths, with
//! fractional digits beyond the third truncated and magnitudes saturated at
//! [`crate::scalar::SCALAR_SAT`].

use crate::scalar::SCALAR_SAT;
use crate::style::{
    Dimension, GridPlacement, Lp, Lpa, MaxTrack, MinTrack, RepeatCount, TrackSizing,
    TrackTemplate, TrackTemplateSpec,
};
use vstd::prelude::*;

verus! {

/// ASCII whitespace, as the grammar skips it.
pub open spec fn is_ws(b: u8) -> bool {
    b == 32 || b == 9 || b == 10 || b == 13
}

/// ASCII decimal digit.
pub open spec fn is_digit(b: u8) -> bool {
    48 <= b <= 57
}

/// First index in `[lo, hi)` whose byte is not whitespace, or `hi`.
pub open spec fn trim_lo(s: Seq<u8>, lo: int, hi: int) -> int
    decreases hi - lo,
{
    if lo < hi && is_ws(s[lo]) {
        trim_lo(s, lo + 1, hi)
    } else {
        lo
    }
}

/// One past the last index in `[lo, hi)` whose byte is not whitespace, or `lo`.
pub open spec fn trim_hi(s: Seq<u8>, lo: int, hi: int) -> int
    decreases hi - lo,
{
    if lo < hi && is_ws(s[hi - 1]) {
        trim_hi(s, lo, hi - 1)
    } else {
        hi
    }
}

/// First index of byte `b` in `[lo, hi)`, or `hi` when absent.
pub open spec fn find_byte(s: Seq<u8>, lo: int, hi: int, b: u8) -> int
    decreases hi - lo,
{
    if lo >= hi {
        hi
    } else if s[lo] == b {
        lo
    } else {
        find_byte(s, lo + 1, hi, b)
    }
}

/// Every byte in `[lo, hi)` is a decimal digit.
pub open spec fn all_digits(s: Seq<u8>, lo: int, hi: int) -> bool {
    forall|i: int| lo <= i < hi ==> is_digit(s[i])
}

/// The value of the digit string in `[lo, hi)`, unbounded.
pub open spec fn digits_val(s: Seq<u8>, lo: int, hi: int) -> int
    decreases hi - lo,
{
    if hi <= lo {
        0
    } else {
        digits_val(s, lo, hi - 1) * 10 + (s[hi - 1] - 48)
    }
}

/// Ten to the power `k`.
pub open spec fn pow10(k: nat) -> int
    decreases k,
{
    if k == 0 {
        1
    } else {
        10 * pow10((k - 1) as nat)
    }
}

/// Clamp a non-negative magnitude at the saturation bound.
pub open spec fn sat(x: int) -> int {
    if x > SCALAR_SAT {
        SCALAR_SAT as int
    } else {
        x
    }
}

/// Value in thousandths of the fraction-digit string in `[lo, hi)`:
/// the first three digits scaled to thousandths, further digits dropped.
pub open spec fn frac_milli(s: Seq<u8>, lo: int, hi: int) -> int {
    if hi - lo >= 3 {
        digits_val(s, lo, lo + 3)
    } else {
        digits_val(s, lo, hi) * pow10((3 - (hi - lo)) as nat)
    }
}

/// A digit string's value is never negative.
pub proof fn lemma_digits_val_nonneg(s: Seq<u8>, lo: int, hi: int)
    requires
        all_digits(s, lo, hi),
        lo <= hi,
    ensures
        digits_val(s, lo, hi) >= 0,
    decreases hi - lo,
{
    if hi > lo {
        lemma_digits_val_nonneg(s, lo, hi - 1);
        assert(is_digit(s[hi - 1]));
        assert(digits_val(s, lo, hi - 1) * 10 >= 0) by (nonlinear_arith)
            requires
                digits_val(s, lo, hi - 1) >= 0,
        ;
    }
}

/// Powers of ten are positive.
pub proof fn lemma_pow10_pos(k: nat)
    ensures
        pow10(k) >= 1,
    decreases k,
{
    if k > 0 {
        lemma_pow10_pos((k - 1) as nat);
    }
}

/// A parsed decimal number lies within the saturation bound.
pub proof fn lemma_decimal_range(s: Seq<u8>, lo: int, hi: int)
    ensures
        spec_decimal(s, lo, hi) matches Some(m) ==> -SCALAR_SAT <= m <= SCALAR_SAT,
        spec_decimal_mag(s, lo, hi) matches Some(m) ==> 0 <= m <= SCALAR_SAT,
{
    lemma_decimal_mag_range(s, lo, hi);
    if lo < hi && s[lo] == 45 {
        lemma_decimal_mag_range(s, lo + 1, hi);
    }
}

/// The found index lies within the searched range.
pub proof fn lemma_find_byte_bounds(s: Seq<u8>, lo: int, hi: int, b: u8)
    requires
        lo <= hi,
    ensures
        lo <= find_byte(s, lo, hi, b) <= hi,
    decreases hi - lo,
{
    if lo < hi && s[lo] != b {
        lemma_find_byte_bounds(s, lo + 1, hi, b);
    }
}

/// An unsigned decimal magnitude lies within the saturation bound.
proof fn lemma_decimal_mag_range(s: Seq<u8>, lo: int, hi: int)
    ensures
        spec_decimal_mag(s, lo, hi) matches Some(m) ==> 0 <= m <= SCALAR_SAT,
{
    let dot = find_byte(s, lo, hi, 46);
    if lo > hi {
        assert(dot == hi);
        assert(!(lo < hi));
    } else {
        lemma_find_byte_bounds(s, lo, hi, 46);
        if dot == hi {
            if lo < hi && all_digits(s, lo, hi) {
                lemma_digits_val_nonneg(s, lo, hi);
                assert(digits_val(s, lo, hi) * 1000 >= 0) by (nonlinear_arith)
                    requires
                        digits_val(s, lo, hi) >= 0,
                ;
            }
        } else {
            if all_digits(s, lo, dot) && all_digits(s, dot + 1, hi) && (lo < dot || dot + 1
                < hi) {
                lemma_digits_val_nonneg(s, lo, dot);
                lemma_frac_milli_nonneg(s, dot + 1, hi);
                assert(digits_val(s, lo, dot) * 1000 >= 0) by (nonlinear_arith)
                    requires
                        digits_val(s, lo, dot) >= 0,
                ;
            }
        }
    }
}

/// The fractional thousandths of a digit range are never negative.
proof fn lemma_frac_milli_nonneg(s: Seq<u8>, lo: int, hi: int)
    requires
        all_digits(s, lo, hi),
        lo <= hi,
    ensures
        frac_milli(s, lo, hi) >= 0,
{
    if hi - lo >= 3 {
        assert(all_digits(s, lo, lo + 3));
        lemma_digits_val_nonneg(s, lo, lo + 3);
    } else {
        lemma_digits_val_nonneg(s, lo, hi);
        lemma_pow10_pos((3 - (hi - lo)) as nat);
        assert(digits_val(s, lo, hi) * pow10((3 - (hi - lo)) as nat) >= 0) by (nonlinear_arith)
            requires
                digits_val(s, lo, hi) >= 0,
                pow10((3 - (hi - lo)) as nat) >= 1,
        ;
    }
}

/// Byte search agrees on sequences that agree over the searched range.
proof fn lemma_find_byte_agree(s: Seq<u8>, t: Seq<u8>, lo: int, hi: int, b: u8)
    requires
        0 <= lo,
        hi <= s.len(),
        hi <= t.len(),
        forall|i: int| lo <= i < hi ==> s[i] == t[i],
    ensures
        find_byte(s, lo, hi, b) == find_byte(t, lo, hi, b),
    decreases hi - lo,
{
    if lo < hi && s[lo] != b {
        lemma_find_byte_agree(s, t, lo + 1, hi, b);
    }
}

/// Digit values agree on sequences that agree over the read range.
proof fn lemma_digits_val_agree(s: Seq<u8>, t: Seq<u8>, lo: int, hi: int)
    requires
        0 <= lo,
        hi <= s.len(),
        hi <= t.len(),
        forall|i: int| lo <= i < hi ==> s[i] == t[i],
    ensures
        digits_val(s, lo, hi) == digits_val(t, lo, hi),
    decreases hi - lo,
{
    if hi > lo {
        lemma_digits_val_agree(s, t, lo, hi - 1);
    }
}

/// The decimal grammar reads only the bytes of its range: sequences that
/// agree there parse alike.
pub proof fn lemma_decimal_agree(s: Seq<u8>, t: Seq<u8>, lo: int, hi: int)
    requires
        0 <= lo,
        hi <= s.len(),
        hi <= t.len(),
        forall|i: int| lo <= i < hi ==> s[i] == t[i],
    ensures
        spec_decimal(s, lo, hi) == spec_decimal(t, lo, hi),
{
    lemma_decimal_mag_agree(s, t, lo, hi);
    if lo < hi && s[lo] == 45 {
        lemma_decimal_mag_agree(s, t, lo + 1, hi);
    }
}

/// Magnitude half of the range-agreement fact.
proof fn lemma_decimal_mag_agree(s: Seq<u8>, t: Seq<u8>, lo: int, hi: int)
    requires
        0 <= lo,
        hi <= s.len(),
        hi <= t.len(),
        forall|i: int| lo <= i < hi ==> s[i] == t[i],
    ensures
        spec_decimal_mag(s, lo, hi) == spec_decimal_mag(t, lo, hi),
{
    if lo > hi {
    } else {
        lemma_find_byte_agree(s, t, lo, hi, 46);
        lemma_find_byte_bounds(s, lo, hi, 46);
        let dot = find_byte(s, lo, hi, 46);
        assert(all_digits(s, lo, dot) == all_digits(t, lo, dot));
        lemma_digits_val_agree(s, t, lo, dot);
        if dot < hi {
            assert(all_digits(s, dot + 1, hi) == all_digits(t, dot + 1, hi));
            lemma_digits_val_agree(s, t, dot + 1, hi);
            if hi - (dot + 1) >= 3 {
                lemma_digits_val_agree(s, t, dot + 1, dot + 4);
            }
        } else {
            lemma_digits_val_agree(s, t, lo, hi);
        }
    }
}

/// A readable decimal begins with a minus, a digit or a dot — never
/// whitespace — and its range is non-empty.
pub proof fn lemma_decimal_starts(s: Seq<u8>, lo: int, hi: int)
    requires
        spec_decimal(s, lo, hi) is Some,
        0 <= lo,
        hi <= s.len(),
    ensures
        lo < hi,
        s[lo] == 45 || s[lo] == 46 || is_digit(s[lo]),
        !is_ws(s[lo]),
{
    if lo < hi && s[lo] == 45 {
    } else {
        let dot = find_byte(s, lo, hi, 46);
        if lo >= hi {
            assert(dot == hi);
            assert(spec_decimal_mag(s, lo, hi) is None);
        } else {
            lemma_find_byte_bounds(s, lo, hi, 46);
            if dot == hi {
                assert(all_digits(s, lo, hi));
                assert(is_digit(s[lo]));
            } else {
                if dot == lo {
                    lemma_find_byte_bounds(s, lo + 1, hi, 46);
                    assert(s[lo] == 46);
                } else {
                    assert(all_digits(s, lo, dot));
                    assert(is_digit(s[lo]));
                }
            }
        }
    }
}

/// An unsigned decimal number in `[lo, hi)` — `D+`, `D+.D*` or `D*.D+` —
/// as a saturated magnitude in thousandths; `None` when the bytes do not
/// form such a number.
pub open spec fn spec_decimal_mag(s: Seq<u8>, lo: int, hi: int) -> Option<int> {
    let dot = find_byte(s, lo, hi, 46);
    if dot == hi {
        if lo < hi && all_digits(s, lo, hi) {
            Some(sat(digits_val(s, lo, hi) * 1000))
        } else {
            None
        }
    } else {
        if all_digits(s, lo, dot) && all_digits(s, dot + 1, hi) && (lo < dot || dot + 1 < hi) {
            Some(sat(digits_val(s, lo, dot) * 1000 + frac_milli(s, dot + 1, hi)))
        } else {
            None
        }
    }
}

/// A decimal number with optional leading minus, in thousandths.
pub open spec fn spec_decimal(s: Seq<u8>, lo: int, hi: int) -> Option<int> {
    if lo < hi && s[lo] == 45 {
        match spec_decimal_mag(s, lo + 1, hi) {
            Some(m) => Some(-m),
            None => None,
        }
    } else {
        spec_decimal_mag(s, lo, hi)
    }
}

/// Skip leading whitespace.
pub fn scan_trim_lo(s: &[u8], lo: usize, hi: usize) -> (r: usize)
    requires
        lo <= hi <= s@.len(),
    ensures
        r == trim_lo(s@, lo as int, hi as int),
        lo <= r <= hi,
    decreases hi - lo,
{
    if lo < hi && (s[lo] == 32 || s[lo] == 9 || s[lo] == 10 || s[lo] == 13) {
        scan_trim_lo(s, lo + 1, hi)
    } else {
        lo
    }
}

/// Drop trailing whitespace.
pub fn scan_trim_hi(s: &[u8], lo: usize, hi: usize) -> (r: usize)
    requires
        lo <= hi <= s@.len(),
    ensures
        r == trim_hi(s@, lo as int, hi as int),
        lo <= r <= hi,
    decreases hi - lo,
{
    if lo < hi && (s[hi - 1] == 32 || s[hi - 1] == 9 || s[hi - 1] == 10 || s[hi - 1] == 13) {
        scan_trim_hi(s, lo, hi - 1)
    } else {
        hi
    }
}

/// Find the first occurrence of `b`, or `hi`.
pub fn scan_find_byte(s: &[u8], lo: usize, hi: usize, b: u8) -> (r: usize)
    requires
        lo <= hi <= s@.len(),
    ensures
        r == find_byte(s@, lo as int, hi as int, b),
        lo <= r <= hi,
    decreases hi - lo,
{
    if lo >= hi {
        hi
    } else if s[lo] == b {
        lo
    } else {
        scan_find_byte(s, lo + 1, hi, b)
    }
}

/// Check that `[lo, hi)` holds only digits.
pub fn scan_all_digits(s: &[u8], lo: usize, hi: usize) -> (r: bool)
    requires
        lo <= hi <= s@.len(),
    ensures
        r == all_digits(s@, lo as int, hi as int),
{
    let mut i = lo;
    while i < hi
        invariant
            lo <= i <= hi <= s@.len(),
            forall|j: int| lo <= j < i ==> is_digit(s@[j]),
        decreases hi - i,
    {
        if s[i] < 48 || s[i] > 57 {
            return false;
        }
        i = i + 1;
    }
    true
}

/// The digit-string value in `[lo, hi)`, saturated at `cap`; meant for
/// ranges already known to hold only digits.
fn scan_digits_capped(s: &[u8], lo: usize, hi: usize, cap: i64) -> (r: i64)
    requires
        lo <= hi <= s@.len(),
        all_digits(s@, lo as int, hi as int),
        0 < cap <= 0x0400_0000_0000_0000,
    ensures
        r == (if digits_val(s@, lo as int, hi as int) > cap {
            cap as int
        } else {
            digits_val(s@, lo as int, hi as int)
        }),
        0 <= r <= cap,
{
    let mut acc: i64 = 0;
    let mut i = lo;
    while i < hi
        invariant
            lo <= i <= hi <= s@.len(),
            all_digits(s@, lo as int, hi as int),
            0 < cap <= 0x0400_0000_0000_0000,
            acc == (if digits_val(s@, lo as int, i as int) > cap {
                cap as int
            } else {
                digits_val(s@, lo as int, i as int)
            }),
            0 <= acc <= cap,
        decreases hi - i,
    {
        let ghost v_old = digits_val(s@, lo as int, i as int);
        let d = s[i] - 48;
        let t = acc * 10 + (d as i64);
        proof {
            assert(is_digit(s@[i as int]));
            assert(digits_val(s@, lo as int, i + 1) == v_old * 10 + d);
            if v_old > cap {
                assert(v_old * 10 + d > cap * 10) by (nonlinear_arith)
                    requires
                        v_old > cap,
                        d >= 0,
                ;
            }
        }
        acc = if t > cap {
            cap
        } else {
            t
        };
        i = i + 1;
    }
    acc
}

/// Parse an unsigned decimal magnitude into saturated thousandths.
fn parse_decimal_mag(s: &[u8], lo: usize, hi: usize) -> (r: Option<i64>)
    requires
        lo <= hi <= s@.len(),
    ensures
        r matches Some(m) ==> spec_decimal_mag(s@, lo as int, hi as int) == Some(m as int),
        r is None ==> spec_decimal_mag(s@, lo as int, hi as int) is None,
        r matches Some(m) ==> 0 <= m <= SCALAR_SAT,
{
    let dot = scan_find_byte(s, lo, hi, 46);
    if dot == hi {
        if lo < hi && scan_all_digits(s, lo, hi) {
            let v = scan_digits_capped(s, lo, hi, SCALAR_SAT);
            let t = if v >= SCALAR_SAT {
                SCALAR_SAT
            } else {
                v * 1000
            };
            let m = if t > SCALAR_SAT {
                SCALAR_SAT
            } else {
                t
            };
            proof {
                let val = digits_val(s@, lo as int, hi as int);
                if val >= SCALAR_SAT {
                    assert(val * 1000 >= SCALAR_SAT * 1000) by (nonlinear_arith)
                        requires
                            val >= SCALAR_SAT,
                    ;
                }
            }
            Some(m)
        } else {
            None
        }
    } else {
        if scan_all_digits(s, lo, dot) && scan_all_digits(s, dot + 1, hi) && (lo < dot || dot + 1
            < hi) {
            let v = scan_digits_capped(s, lo, dot, SCALAR_SAT);
            let f = scan_frac_milli(s, dot + 1, hi);
            let t = if v >= SCALAR_SAT {
                SCALAR_SAT
            } else {
                v * 1000 + f
            };
            let m = if t > SCALAR_SAT {
                SCALAR_SAT
            } else {
                t
            };
            proof {
                let val = digits_val(s@, lo as int, dot as int);
                let fr = frac_milli(s@, dot + 1, hi as int);
                if val >= SCALAR_SAT {
                    assert(val * 1000 >= SCALAR_SAT * 1000) by (nonlinear_arith)
                        requires
                            val >= SCALAR_SAT,
                    ;
                }
            }
            Some(m)
        } else {
            None
        }
    }
}

/// Value in thousandths of a validated fraction-digit range.
fn scan_frac_milli(s: &[u8], lo: usize, hi: usize) -> (r: i64)
    requires
        lo <= hi <= s@.len(),
        all_digits(s@, lo as int, hi as int),
    ensures
        r == frac_milli(s@, lo as int, hi as int),
        0 <= r <= 999,
{
    let n = hi - lo;
    proof {
        assert(digits_val(s@, lo as int, lo as int) == 0);
    }
    if n == 0 {
        0
    } else if n == 1 {
        let d0 = (s[lo] - 48) as i64;
        proof {
            assert(digits_val(s@, lo as int, lo + 1) == d0);
            assert(pow10(0) == 1);
            assert(pow10(1) == 10);
            assert(pow10(2) == 100);
        }
        d0 * 100
    } else if n == 2 {
        let d0 = (s[lo] - 48) as i64;
        let d1 = (s[lo + 1] - 48) as i64;
        proof {
            assert(digits_val(s@, lo as int, lo + 1) == d0);
            assert(digits_val(s@, lo as int, lo + 2) == d0 * 10 + d1);
            assert(pow10(0) == 1);
            assert(pow10(1) == 10);
        }
        (d0 * 10 + d1) * 10
    } else {
        let d0 = (s[lo] - 48) as i64;
        let d1 = (s[lo + 1] - 48) as i64;
        let d2 = (s[lo + 2] - 48) as i64;
        proof {
            assert(digits_val(s@, lo as int, lo + 1) == d0);
            assert(digits_val(s@, lo as int, lo + 2) == d0 * 10 + d1);
            assert(digits_val(s@, lo as int, lo + 3) == (d0 * 10 + d1) * 10 + d2);
        }
        (d0 * 10 + d1) * 10 + d2
    }
}

/// Parse a signed decimal number into saturated thousandths.
pub fn parse_decimal(s: &[u8], lo: usize, hi: usize) -> (r: Option<i64>)
    requires
        lo <= hi <= s@.len(),
    ensures
        r matches Some(m) ==> spec_decimal(s@, lo as int, hi as int) == Some(m as int),
        r is None ==> spec_decimal(s@, lo as int, hi as int) is None,
        r matches Some(m) ==> -SCALAR_SAT <= m <= SCALAR_SAT,
{
    if lo < hi && s[lo] == 45 {
        match parse_decimal_mag(s, lo + 1, hi) {
            Some(m) => Some(-m),
            None => None,
        }
    } else {
        parse_decimal_mag(s, lo, hi)
    }
}

/// The range `[lo, hi)` of `s` holds exactly the bytes of `kw`.
pub open spec fn range_is(s: Seq<u8>, lo: int, hi: int, kw: Seq<u8>) -> bool {
    0 <= lo <= hi <= s.len() && s.subrange(lo, hi) =~= kw
}

/// The range `[lo, hi)` of `s` begins with the bytes of `kw`.
pub open spec fn range_starts(s: Seq<u8>, lo: int, hi: int, kw: Seq<u8>) -> bool {
    0 <= lo && lo + kw.len() <= hi <= s.len() && s.subrange(lo, lo + kw.len() as int) =~= kw
}

/// Whether `[lo, hi)` holds exactly the bytes of `kw`.
pub fn range_eq(s: &[u8], lo: usize, hi: usize, kw: &[u8]) -> (r: bool)
    requires
        lo <= hi <= s@.len(),
    ensures
        r == range_is(s@, lo as int, hi as int, kw@),
{
    if hi - lo != kw.len() {
        return false;
    }
    let n = kw.len();
    let mut i: usize = 0;
    while i < n
        invariant
            lo <= hi <= s@.len(),
            hi - lo == n == kw@.len(),
            i <= n,
            forall|j: int| 0 <= j < i ==> s@[lo + j] == kw@[j],
        decreases n - i,
    {
        if s[lo + i] != kw[i] {
            return false;
        }
        i = i + 1;
    }
    true
}

/// Whether `[lo, hi)` begins with the bytes of `kw`.
pub fn range_has_prefix(s: &[u8], lo: usize, hi: usize, kw: &[u8]) -> (r: bool)
    requires
        lo <= hi <= s@.len(),
    ensures
        r == range_starts(s@, lo as int, hi as int, kw@),
{
    if hi - lo < kw.len() {
        return false;
    }
    range_eq(s, lo, lo + kw.len(), kw)
}

/// The bytes of `auto`.
pub open spec fn kw_auto() -> Seq<u8> {
    seq![97u8, 117u8, 116u8, 111u8]
}

/// An unsigned 16-bit integer: digits only, rejected on overflow.
pub open spec fn spec_parse_u16(s: Seq<u8>, lo: int, hi: int) -> Option<u16> {
    if lo < hi && all_digits(s, lo, hi) && digits_val(s, lo, hi) <= 65535 {
        Some(digits_val(s, lo, hi) as u16)
    } else {
        None
    }
}

/// Parse an unsigned 16-bit integer.
pub fn parse_u16(s: &[u8], lo: usize, hi: usize) -> (r: Option<u16>)
    requires
        lo <= hi <= s@.len(),
    ensures
        r == spec_parse_u16(s@, lo as int, hi as int),
{
    if lo < hi && scan_all_digits(s, lo, hi) {
        let v = scan_digits_capped(s, lo, hi, 100000);
        if v <= 65535 {
            Some(v as u16)
        } else {
            None
        }
    } else {
        None
    }
}

/// A signed 16-bit integer: optional minus then digits, rejected on
/// overflow.
pub open spec fn spec_parse_i16(s: Seq<u8>, lo: int, hi: int) -> Option<i16> {
    if lo < hi && s[lo] == 45 {
        if lo + 1 < hi && all_digits(s, lo + 1, hi) && digits_val(s, lo + 1, hi) <= 32768 {
            Some((-digits_val(s, lo + 1, hi)) as i16)
        } else {
            None
        }
    } else {
        if lo < hi && all_digits(s, lo, hi) && digits_val(s, lo, hi) <= 32767 {
            Some(digits_val(s, lo, hi) as i16)
        } else {
            None
        }
    }
}

/// Parse a signed 16-bit integer.
pub fn parse_i16(s: &[u8], lo: usize, hi: usize) -> (r: Option<i16>)
    requires
        lo <= hi <= s@.len(),
    ensures
        r == spec_parse_i16(s@, lo as int, hi as int),
{
    if lo < hi && s[lo] == 45 {
        if lo + 1 < hi && scan_all_digits(s, lo + 1, hi) {
            let v = scan_digits_capped(s, lo + 1, hi, 100000);
            if v <= 32768 {
                Some(-(v as i32) as i16)
            } else {
                None
            }
        } else {
            None
        }
    } else {
        if lo < hi && scan_all_digits(s, lo, hi) {
            let v = scan_digits_capped(s, lo, hi, 100000);
            if v <= 32767 {
                Some(v as i16)
            } else {
                None
            }
        } else {
            None
        }
    }
}

/// Truncating division by one hundred, used to turn a percentage count
/// into a fraction of one.
pub open spec fn div100(m: int) -> int {
    if m >= 0 {
        m / 100
    } else {
        -((-m) / 100)
    }
}

/// Truncating division of a scalar by one hundred.
pub fn scalar_div100(m: i64) -> (r: i64)
    requires
        -SCALAR_SAT <= m <= SCALAR_SAT,
    ensures
        r == div100(m as int),
        -SCALAR_SAT <= r <= SCALAR_SAT,
{
    if m >= 0 {
        m / 100
    } else {
        -((-m) / 100)
    }
}

/// A dimension token: `auto`, a pixel count with `px` (or bare), or a
/// percentage; malformed tokens fall back to `auto`.
#[verifier::opaque]
pub open spec fn spec_parse_dimension(s: Seq<u8>, lo: int, hi: int) -> Dimension {
    let a = trim_lo(s, lo, hi);
    let b = trim_hi(s, a, hi);
    if range_is(s, a, b, kw_auto()) {
        Dimension::Auto
    } else if b - a >= 2 && s[b - 2] == 112 && s[b - 1] == 120 {
        match spec_decimal(s, a, b - 2) {
            Some(m) => Dimension::Length(m as i64),
            None => Dimension::Auto,
        }
    } else if b - a >= 1 && s[b - 1] == 37 {
        match spec_decimal(s, a, b - 1) {
            Some(m) => Dimension::Percent(div100(m) as i64),
            None => Dimension::Auto,
        }
    } else {
        match spec_decimal(s, a, b) {
            Some(m) => Dimension::Length(m as i64),
            None => Dimension::Auto,
        }
    }
}

/// Parse a dimension token from a byte range.
pub fn parse_dimension_range(s: &[u8], lo: usize, hi: usize) -> (r: Dimension)
    requires
        lo <= hi <= s@.len(),
    ensures
        r == spec_parse_dimension(s@, lo as int, hi as int),
{
    proof {
        reveal(spec_parse_dimension);
    }
    let a = scan_trim_lo(s, lo, hi);
    let b = scan_trim_hi(s, a, hi);
    let auto_kw: [u8; 4] = [97, 117, 116, 111];
    proof {
        assert(auto_kw@ =~= kw_auto());
    }
    if range_eq(s, a, b, auto_kw.as_slice()) {
        Dimension::Auto
    } else if b - a >= 2 && s[b - 2] == 112 && s[b - 1] == 120 {
        match parse_decimal(s, a, b - 2) {
            Some(m) => Dimension::Length(m),
            None => Dimension::Auto,
        }
    } else if b - a >= 1 && s[b - 1] == 37 {
        match parse_decimal(s, a, b - 1) {
            Some(m) => Dimension::Percent(scalar_div100(m)),
            None => Dimension::Auto,
        }
    } else {
        match parse_decimal(s, a, b) {
            Some(m) => Dimension::Length(m),
            None => Dimension::Auto,
        }
    }
}

/// A margin or inset token: same grammar as a dimension.
#[verifier::opaque]
pub open spec fn spec_parse_lpa(s: Seq<u8>, lo: int, hi: int) -> Lpa {
    let a = trim_lo(s, lo, hi);
    let b = trim_hi(s, a, hi);
    if range_is(s, a, b, kw_auto()) {
        Lpa::Auto
    } else if b - a >= 2 && s[b - 2] == 112 && s[b - 1] == 120 {
        match spec_decimal(s, a, b - 2) {
            Some(m) => Lpa::Length(m as i64),
            None => Lpa::Auto,
        }
    } else if b - a >= 1 && s[b - 1] == 37 {
        match spec_decimal(s, a, b - 1) {
            Some(m) => Lpa::Percent(div100(m) as i64),
            None => Lpa::Auto,
        }
    } else {
        match spec_decimal(s, a, b) {
            Some(m) => Lpa::Length(m as i64),
            None => Lpa::Auto,
        }
    }
}

/// Parse a margin or inset token from a byte range.
pub fn parse_lpa_range(s: &[u8], lo: usize, hi: usize) -> (r: Lpa)
    requires
        lo <= hi <= s@.len(),
    ensures
        r == spec_parse_lpa(s@, lo as int, hi as int),
{
    proof {
        reveal(spec_parse_lpa);
    }
    let a = scan_trim_lo(s, lo, hi);
    let b = scan_trim_hi(s, a, hi);
    let auto_kw: [u8; 4] = [97, 117, 116, 111];
    proof {
        assert(auto_kw@ =~= kw_auto());
    }
    if range_eq(s, a, b, auto_kw.as_slice()) {
        Lpa::Auto
    } else if b - a >= 2 && s[b - 2] == 112 && s[b - 1] == 120 {
        match parse_decimal(s, a, b - 2) {
            Some(m) => Lpa::Length(m),
            None => Lpa::Auto,
        }
    } else if b - a >= 1 && s[b - 1] == 37 {
        match parse_decimal(s, a, b - 1) {
            Some(m) => Lpa::Percent(scalar_div100(m)),
            None => Lpa::Auto,
        }
    } else {
        match parse_decimal(s, a, b) {
            Some(m) => Lpa::Length(m),
            None => Lpa::Auto,
        }
    }
}

/// A padding, border or gap token: pixel count or percentage, never
/// `auto`; malformed tokens fall back to a zero length.
#[verifier::opaque]
pub open spec fn spec_parse_lp(s: Seq<u8>, lo: int, hi: int) -> Lp {
    let a = trim_lo(s, lo, hi);
    let b = trim_hi(s, a, hi);
    if b - a >= 2 && s[b - 2] == 112 && s[b - 1] == 120 {
        match spec_decimal(s, a, b - 2) {
            Some(m) => Lp::Length(m as i64),
            None => Lp::Length(0),
        }
    } else if b - a >= 1 && s[b - 1] == 37 {
        match spec_decimal(s, a, b - 1) {
            Some(m) => Lp::Percent(div100(m) as i64),
            None => Lp::Length(0),
        }
    } else {
        match spec_decimal(s, a, b) {
            Some(m) => Lp::Length(m as i64),
            None => Lp::Length(0),
        }
    }
}

/// Parse a padding, border or gap token from a byte range.
pub fn parse_lp_range(s: &[u8], lo: usize, hi: usize) -> (r: Lp)
    requires
        lo <= hi <= s@.len(),
    ensures
        r == spec_parse_lp(s@, lo as int, hi as int),
{
    proof {
        reveal(spec_parse_lp);
    }
    let a = scan_trim_lo(s, lo, hi);
    let b = scan_trim_hi(s, a, hi);
    if b - a >= 2 && s[b - 2] == 112 && s[b - 1] == 120 {
        match parse_decimal(s, a, b - 2) {
            Some(m) => Lp::Length(m),
            None => Lp::Length(0),
        }
    } else if b - a >= 1 && s[b - 1] == 37 {
        match parse_decimal(s, a, b - 1) {
            Some(m) => Lp::Percent(scalar_div100(m)),
            None => Lp::Length(0),
        }
    } else {
        match parse_decimal(s, a, b) {
            Some(m) => Lp::Length(m),
            None => Lp::Length(0),
        }
    }
}

/// The bytes of `span` followed by one space.
pub open spec fn kw_span_sp() -> Seq<u8> {
    seq![115u8, 112u8, 97u8, 110u8, 32u8]
}

/// A grid line placement token: `auto`, `span N`, or a signed line index;
/// anything else falls back to `auto`.
#[verifier::opaque]
pub open spec fn spec_parse_placement(s: Seq<u8>, lo: int, hi: int) -> GridPlacement {
    let a = trim_lo(s, lo, hi);
    let b = trim_hi(s, a, hi);
    if range_is(s, a, b, kw_auto()) {
        GridPlacement::Auto
    } else if range_starts(s, a, b, kw_span_sp()) && spec_parse_u16(s, a + 5, b) is Some {
        GridPlacement::Span(spec_parse_u16(s, a + 5, b)->Some_0)
    } else {
        match spec_parse_i16(s, a, b) {
            Some(v) => GridPlacement::Line(v),
            None => GridPlacement::Auto,
        }
    }
}

/// Parse a grid line placement token from a byte range.
pub fn parse_placement_range(s: &[u8], lo: usize, hi: usize) -> (r: GridPlacement)
    requires
        lo <= hi <= s@.len(),
    ensures
        r == spec_parse_placement(s@, lo as int, hi as int),
{
    proof {
        reveal(spec_parse_placement);
    }
    let a = scan_trim_lo(s, lo, hi);
    let b = scan_trim_hi(s, a, hi);
    let auto_kw: [u8; 4] = [97, 117, 116, 111];
    let span_kw: [u8; 5] = [115, 112, 97, 110, 32];
    proof {
        assert(auto_kw@ =~= kw_auto());
        assert(span_kw@ =~= kw_span_sp());
    }
    if range_eq(s, a, b, auto_kw.as_slice()) {
        return GridPlacement::Auto;
    }
    if range_has_prefix(s, a, b, span_kw.as_slice()) {
        if let Some(v) = parse_u16(s, a + 5, b) {
            return GridPlacement::Span(v);
        }
    }
    match parse_i16(s, a, b) {
        Some(v) => GridPlacement::Line(v),
        None => GridPlacement::Auto,
    }
}

/// The bytes of `min-content`.
pub open spec fn kw_min_content() -> Seq<u8> {
    seq![109u8, 105u8, 110u8, 45u8, 99u8, 111u8, 110u8, 116u8, 101u8, 110u8, 116u8]
}

/// The bytes of `max-content`.
pub open spec fn kw_max_content() -> Seq<u8> {
    seq![109u8, 97u8, 120u8, 45u8, 99u8, 111u8, 110u8, 116u8, 101u8, 110u8, 116u8]
}

/// The bytes of `minmax(`.
pub open spec fn kw_minmax_open() -> Seq<u8> {
    seq![109u8, 105u8, 110u8, 109u8, 97u8, 120u8, 40u8]
}

/// The bytes of `repeat(`.
pub open spec fn kw_repeat_open() -> Seq<u8> {
    seq![114u8, 101u8, 112u8, 101u8, 97u8, 116u8, 40u8]
}

/// The bytes of `auto-fill`.
pub open spec fn kw_auto_fill() -> Seq<u8> {
    seq![97u8, 117u8, 116u8, 111u8, 45u8, 102u8, 105u8, 108u8, 108u8]
}

/// The bytes of `auto-fit`.
pub open spec fn kw_auto_fit() -> Seq<u8> {
    seq![97u8, 117u8, 116u8, 111u8, 45u8, 102u8, 105u8, 116u8]
}

/// The lower half of a `minmax()`: keyword, pixel count or percentage.
pub open spec fn spec_parse_min_track(s: Seq<u8>, lo: int, hi: int) -> MinTrack {
    let a = trim_lo(s, lo, hi);
    let b = trim_hi(s, a, hi);
    if range_is(s, a, b, kw_auto()) {
        MinTrack::Auto
    } else if range_is(s, a, b, kw_min_content()) {
        MinTrack::MinContent
    } else if range_is(s, a, b, kw_max_content()) {
        MinTrack::MaxContent
    } else if b - a >= 2 && s[b - 2] == 112 && s[b - 1] == 120 {
        match spec_decimal(s, a, b - 2) {
            Some(m) => MinTrack::Length(m as i64),
            None => MinTrack::Auto,
        }
    } else if b - a >= 1 && s[b - 1] == 37 {
        match spec_decimal(s, a, b - 1) {
            Some(m) => MinTrack::Percent(div100(m) as i64),
            None => MinTrack::Auto,
        }
    } else {
        MinTrack::Auto
    }
}

/// Parse the lower half of a `minmax()`.
pub fn parse_min_track_range(s: &[u8], lo: usize, hi: usize) -> (r: MinTrack)
    requires
        lo <= hi <= s@.len(),
    ensures
        r == spec_parse_min_track(s@, lo as int, hi as int),
{
    let a = scan_trim_lo(s, lo, hi);
    let b = scan_trim_hi(s, a, hi);
    let auto_kw: [u8; 4] = [97, 117, 116, 111];
    let minc_kw: [u8; 11] = [109, 105, 110, 45, 99, 111, 110, 116, 101, 110, 116];
    let maxc_kw: [u8; 11] = [109, 97, 120, 45, 99, 111, 110, 116, 101, 110, 116];
    proof {
        assert(auto_kw@ =~= kw_auto());
        assert(minc_kw@ =~= kw_min_content());
        assert(maxc_kw@ =~= kw_max_content());
    }
    if range_eq(s, a, b, auto_kw.as_slice()) {
        MinTrack::Auto
    } else if range_eq(s, a, b, minc_kw.as_slice()) {
        MinTrack::MinContent
    } else if range_eq(s, a, b, maxc_kw.as_slice()) {
        MinTrack::MaxContent
    } else if b - a >= 2 && s[b - 2] == 112 && s[b - 1] == 120 {
        match parse_decimal(s, a, b - 2) {
            Some(m) => MinTrack::Length(m),
            None => MinTrack::Auto,
        }
    } else if b - a >= 1 && s[b - 1] == 37 {
        match parse_decimal(s, a, b - 1) {
            Some(m) => MinTrack::Percent(scalar_div100(m)),
            None => MinTrack::Auto,
        }
    } else {
        MinTrack::Auto
    }
}

/// The upper half of a `minmax()`: keyword, flex weight, pixel count or
/// percentage.
pub open spec fn spec_parse_max_track(s: Seq<u8>, lo: int, hi: int) -> MaxTrack {
    let a = trim_lo(s, lo, hi);
    let b = trim_hi(s, a, hi);
    if range_is(s, a, b, kw_auto()) {
        MaxTrack::Auto
    } else if range_is(s, a, b, kw_min_content()) {
        MaxTrack::MinContent
    } else if range_is(s, a, b, kw_max_content()) {
        MaxTrack::MaxContent
    } else if b - a >= 2 && s[b - 2] == 102 && s[b - 1] == 114 {
        match spec_decimal(s, a, b - 2) {
            Some(m) => MaxTrack::Fr(m as i64),
            None => MaxTrack::Auto,
        }
    } else if b - a >= 2 && s[b - 2] == 112 && s[b - 1] == 120 {
        match spec_decimal(s, a, b - 2) {
            Some(m) => MaxTrack::Length(m as i64),
            None => MaxTrack::Auto,
        }
    } else if b - a >= 1 && s[b - 1] == 37 {
        match spec_decimal(s, a, b - 1) {
            Some(m) => MaxTrack::Percent(div100(m) as i64),
            None => MaxTrack::Auto,
        }
    } else {
        MaxTrack::Auto
    }
}

/// Parse the upper half of a `minmax()`.
pub fn parse_max_track_range(s: &[u8], lo: usize, hi: usize) -> (r: MaxTrack)
    requires
        lo <= hi <= s@.len(),
    ensures
        r == spec_parse_max_track(s@, lo as int, hi as int),
{
    let a = scan_trim_lo(s, lo, hi);
    let b = scan_trim_hi(s, a, hi);
    let auto_kw: [u8; 4] = [97, 117, 116, 111];
    let minc_kw: [u8; 11] = [109, 105, 110, 45, 99, 111, 110, 116, 101, 110, 116];
    let maxc_kw: [u8; 11] = [109, 97, 120, 45, 99, 111, 110, 116, 101, 110, 116];
    proof {
        assert(auto_kw@ =~= kw_auto());
        assert(minc_kw@ =~= kw_min_content());
        assert(maxc_kw@ =~= kw_max_content());
    }
    if range_eq(s, a, b, auto_kw.as_slice()) {
        MaxTrack::Auto
    } else if range_eq(s, a, b, minc_kw.as_slice()) {
        MaxTrack::MinContent
    } else if range_eq(s, a, b, maxc_kw.as_slice()) {
        MaxTrack::MaxContent
    } else if b - a >= 2 && s[b - 2] == 102 && s[b - 1] == 114 {
        match parse_decimal(s, a, b - 2) {
            Some(m) => MaxTrack::Fr(m),
            None => MaxTrack::Auto,
        }
    } else if b - a >= 2 && s[b - 2] == 112 && s[b - 1] == 120 {
        match parse_decimal(s, a, b - 2) {
            Some(m) => MaxTrack::Length(m),
            None => MaxTrack::Auto,
        }
    } else if b - a >= 1 && s[b - 1] == 37 {
        match parse_decimal(s, a, b - 1) {
            Some(m) => MaxTrack::Percent(scalar_div100(m)),
            None => MaxTrack::Auto,
        }
    } else {
        MaxTrack::Auto
    }
}

/// Whether the trimmed range `[a, b)` is shaped `minmax(MIN,MAX)` with a
/// comma between the halves.
pub open spec fn is_minmax_shape(s: Seq<u8>, a: int, b: int) -> bool {
    range_starts(s, a, b, kw_minmax_open()) && b - a >= 8 && s[b - 1] == 41 && find_byte(
        s,
        a + 7,
        b - 1,
        44,
    ) < b - 1
}

/// A track sizing function: `minmax(MIN,MAX)`, a keyword, a flex weight,
/// a pixel count or a percentage; anything else falls back to `auto`.
pub open spec fn spec_parse_track_sizing(s: Seq<u8>, lo: int, hi: int) -> TrackSizing {
    let a = trim_lo(s, lo, hi);
    let b = trim_hi(s, a, hi);
    if is_minmax_shape(s, a, b) {
        let c = find_byte(s, a + 7, b - 1, 44);
        TrackSizing::Minmax(
            spec_parse_min_track(s, a + 7, c),
            spec_parse_max_track(s, c + 1, b - 1),
        )
    } else if range_is(s, a, b, kw_auto()) {
        TrackSizing::Auto
    } else if b - a >= 2 && s[b - 2] == 102 && s[b - 1] == 114 && spec_decimal(s, a, b - 2)
        is Some {
        TrackSizing::Fr(spec_decimal(s, a, b - 2)->Some_0 as i64)
    } else if b - a >= 2 && s[b - 2] == 112 && s[b - 1] == 120 && spec_decimal(s, a, b - 2)
        is Some {
        TrackSizing::Length(spec_decimal(s, a, b - 2)->Some_0 as i64)
    } else if b - a >= 1 && s[b - 1] == 37 && spec_decimal(s, a, b - 1) is Some {
        TrackSizing::Percent(div100(spec_decimal(s, a, b - 1)->Some_0) as i64)
    } else if range_is(s, a, b, kw_min_content()) {
        TrackSizing::MinContent
    } else if range_is(s, a, b, kw_max_content()) {
        TrackSizing::MaxContent
    } else if spec_decimal(s, a, b) is Some {
        TrackSizing::Length(spec_decimal(s, a, b)->Some_0 as i64)
    } else {
        TrackSizing::Auto
    }
}

/// Parse a track sizing function from a byte range.
pub fn parse_track_sizing_range(s: &[u8], lo: usize, hi: usize) -> (r: TrackSizing)
    requires
        lo <= hi <= s@.len(),
    ensures
        r == spec_parse_track_sizing(s@, lo as int, hi as int),
{
    let a = scan_trim_lo(s, lo, hi);
    let b = scan_trim_hi(s, a, hi);
    let auto_kw: [u8; 4] = [97, 117, 116, 111];
    let minc_kw: [u8; 11] = [109, 105, 110, 45, 99, 111, 110, 116, 101, 110, 116];
    let maxc_kw: [u8; 11] = [109, 97, 120, 45, 99, 111, 110, 116, 101, 110, 116];
    let mm_kw: [u8; 7] = [109, 105, 110, 109, 97, 120, 40];
    proof {
        assert(auto_kw@ =~= kw_auto());
        assert(minc_kw@ =~= kw_min_content());
        assert(maxc_kw@ =~= kw_max_content());
        assert(mm_kw@ =~= kw_minmax_open());
    }
    if range_has_prefix(s, a, b, mm_kw.as_slice()) && b - a >= 8 && s[b - 1] == 41 {
        let c = scan_find_byte(s, a + 7, b - 1, 44);
        if c < b - 1 {
            let mn = parse_min_track_range(s, a + 7, c);
            let mx = parse_max_track_range(s, c + 1, b - 1);
            return TrackSizing::Minmax(mn, mx);
        }
    }
    proof {
        assert(!is_minmax_shape(s@, a as int, b as int));
    }
    if range_eq(s, a, b, auto_kw.as_slice()) {
        return TrackSizing::Auto;
    }
    if b - a >= 2 && s[b - 2] == 102 && s[b - 1] == 114 {
        if let Some(m) = parse_decimal(s, a, b - 2) {
            return TrackSizing::Fr(m);
        }
    }
    if b - a >= 2 && s[b - 2] == 112 && s[b - 1] == 120 {
        if let Some(m) = parse_decimal(s, a, b - 2) {
            return TrackSizing::Length(m);
        }
    }
    if b - a >= 1 && s[b - 1] == 37 {
        if let Some(m) = parse_decimal(s, a, b - 1) {
            return TrackSizing::Percent(scalar_div100(m));
        }
    }
    if range_eq(s, a, b, minc_kw.as_slice()) {
        return TrackSizing::MinContent;
    }
    if range_eq(s, a, b, maxc_kw.as_slice()) {
        return TrackSizing::MaxContent;
    }
    if let Some(m) = parse_decimal(s, a, b) {
        return TrackSizing::Length(m);
    }
    TrackSizing::Auto
}

/// How a byte changes the parenthesis depth; a closing parenthesis never
/// takes the depth below zero.
pub open spec fn depth_step(b: u8, depth: int) -> int {
    if b == 40 {
        depth + 1
    } else if b == 41 && depth > 0 {
        depth - 1
    } else {
        depth
    }
}

/// First index at or after `i` holding a comma outside all parentheses,
/// or `hi` when there is none.
pub open spec fn top_comma(s: Seq<u8>, i: int, hi: int, depth: int) -> int
    decreases hi - i,
{
    if i >= hi {
        hi
    } else if depth == 0 && s[i] == 44 {
        i
    } else {
        top_comma(s, i + 1, hi, depth_step(s[i], depth))
    }
}

/// Find the first comma outside all parentheses.
pub fn scan_top_comma(s: &[u8], lo: usize, hi: usize) -> (r: usize)
    requires
        lo <= hi <= s@.len(),
    ensures
        r == top_comma(s@, lo as int, hi as int, 0),
        lo <= r <= hi,
{
    let mut i = lo;
    let mut depth: usize = 0;
    while i < hi
        invariant
            lo <= i <= hi <= s@.len(),
            depth <= i - lo,
            top_comma(s@, i as int, hi as int, depth as int) == top_comma(
                s@,
                lo as int,
                hi as int,
                0,
            ),
        decreases hi - i,
    {
        let b = s[i];
        if depth == 0 && b == 44 {
            return i;
        }
        if b == 40 {
            depth = depth + 1;
        } else if b == 41 && depth > 0 {
            depth = depth - 1;
        }
        i = i + 1;
    }
    hi
}

/// The whitespace-separated tokens of `[i, hi)`, split only outside
/// parentheses; `start` is where the current token began. Each token is
/// given as its index range.
pub open spec fn tok_ranges(s: Seq<u8>, i: int, hi: int, depth: int, start: int) -> Seq<
    (int, int),
>
    decreases hi - i,
{
    if i >= hi {
        if start < hi {
            seq![(start, hi)]
        } else {
            Seq::empty()
        }
    } else if depth == 0 && is_ws(s[i]) {
        (if start < i {
            seq![(start, i)]
        } else {
            Seq::empty()
        }) + tok_ranges(s, i + 1, hi, 0, i + 1)
    } else {
        tok_ranges(s, i + 1, hi, depth_step(s[i], depth), start)
    }
}

/// The token ranges of `[lo, hi)`.
pub open spec fn spec_tokens(s: Seq<u8>, lo: int, hi: int) -> Seq<(int, int)> {
    tok_ranges(s, lo, hi, 0, lo)
}

/// The index ranges a token vector denotes.
pub open spec fn ranges_model(v: Seq<(usize, usize)>) -> Seq<(int, int)> {
    v.map(|k: int, p: (usize, usize)| (p.0 as int, p.1 as int))
}

/// Split `[lo, hi)` into whitespace-separated tokens, keeping bytes inside
/// parentheses together.
pub fn scan_tokens(s: &[u8], lo: usize, hi: usize) -> (r: Vec<(usize, usize)>)
    requires
        lo <= hi <= s@.len(),
    ensures
        ranges_model(r@) == spec_tokens(s@, lo as int, hi as int),
        forall|k: int| 0 <= k < r@.len() ==> lo <= #[trigger] r@[k].0 <= r@[k].1 <= hi,
{
    let mut out: Vec<(usize, usize)> = Vec::new();
    let mut i = lo;
    let mut depth: usize = 0;
    let mut start = lo;
    while i < hi
        invariant
            lo <= start <= i <= hi <= s@.len(),
            depth <= i - lo,
            ranges_model(out@) + tok_ranges(s@, i as int, hi as int, depth as int, start as int)
                =~= spec_tokens(s@, lo as int, hi as int),
            forall|k: int| 0 <= k < out@.len() ==> lo <= #[trigger] out@[k].0 <= out@[k].1 <= hi,
        decreases hi - i,
    {
        let b = s[i];
        if depth == 0 && (b == 32 || b == 9 || b == 10 || b == 13) {
            if start < i {
                let ghost old_out = out@;
                out.push((start, i));
                proof {
                    assert(ranges_model(out@) =~= ranges_model(old_out) + seq![
                        (start as int, i as int),
                    ]);
                }
            }
            i = i + 1;
            start = i;
        } else {
            if b == 40 {
                depth = depth + 1;
            } else if b == 41 && depth > 0 {
                depth = depth - 1;
            }
            i = i + 1;
        }
    }
    if start < hi {
        let ghost old_out = out@;
        out.push((start, hi));
        proof {
            assert(ranges_model(out@) =~= ranges_model(old_out) + seq![(start as int, hi as int)]);
        }
    }
    proof {
        assert(ranges_model(out@) =~= spec_tokens(s@, lo as int, hi as int));
    }
    out
}

/// The track sizing functions named by the tokens of `[lo, hi)`.
pub open spec fn spec_track_list(s: Seq<u8>, lo: int, hi: int) -> Seq<TrackSizing> {
    spec_tokens(s, lo, hi).map(|k: int, p: (int, int)| spec_parse_track_sizing(s, p.0, p.1))
}

/// Parse a whitespace-separated track list.
pub fn parse_track_list_range(s: &[u8], lo: usize, hi: usize) -> (r: Vec<TrackSizing>)
    requires
        lo <= hi <= s@.len(),
    ensures
        r@ == spec_track_list(s@, lo as int, hi as int),
{
    let tokens = scan_tokens(s, lo, hi);
    let mut out: Vec<TrackSizing> = Vec::new();
    let n = tokens.len();
    let mut k: usize = 0;
    while k < n
        invariant
            n == tokens@.len(),
            k <= n,
            lo <= hi <= s@.len(),
            ranges_model(tokens@) == spec_tokens(s@, lo as int, hi as int),
            forall|j: int|
                0 <= j < tokens@.len() ==> lo <= #[trigger] tokens@[j].0 <= tokens@[j].1 <= hi,
            out@.len() == k,
            forall|j: int|
                0 <= j < k ==> #[trigger] out@[j] == spec_parse_track_sizing(
                    s@,
                    tokens@[j].0 as int,
                    tokens@[j].1 as int,
                ),
        decreases n - k,
    {
        let (a, b) = (tokens[k].0, tokens[k].1);
        let t = parse_track_sizing_range(s, a, b);
        out.push(t);
        k = k + 1;
    }
    proof {
        assert(out@ =~= spec_track_list(s@, lo as int, hi as int));
    }
    out
}

/// A `repeat()` count token: `auto-fill`, `auto-fit`, or an unsigned
/// integer defaulting to one.
pub open spec fn spec_repeat_count(s: Seq<u8>, lo: int, hi: int) -> RepeatCount {
    let a = trim_lo(s, lo, hi);
    let b = trim_hi(s, a, hi);
    if range_is(s, a, b, kw_auto_fill()) {
        RepeatCount::AutoFill
    } else if range_is(s, a, b, kw_auto_fit()) {
        RepeatCount::AutoFit
    } else {
        match spec_parse_u16(s, a, b) {
            Some(v) => RepeatCount::Count(v),
            None => RepeatCount::Count(1),
        }
    }
}

/// Parse a `repeat()` count token.
pub fn parse_repeat_count(s: &[u8], lo: usize, hi: usize) -> (r: RepeatCount)
    requires
        lo <= hi <= s@.len(),
    ensures
        r == spec_repeat_count(s@, lo as int, hi as int),
{
    let a = scan_trim_lo(s, lo, hi);
    let b = scan_trim_hi(s, a, hi);
    let fill_kw: [u8; 9] = [97, 117, 116, 111, 45, 102, 105, 108, 108];
    let fit_kw: [u8; 8] = [97, 117, 116, 111, 45, 102, 105, 116];
    proof {
        assert(fill_kw@ =~= kw_auto_fill());
        assert(fit_kw@ =~= kw_auto_fit());
    }
    if range_eq(s, a, b, fill_kw.as_slice()) {
        RepeatCount::AutoFill
    } else if range_eq(s, a, b, fit_kw.as_slice()) {
        RepeatCount::AutoFit
    } else {
        match parse_u16(s, a, b) {
            Some(v) => RepeatCount::Count(v),
            None => RepeatCount::Count(1),
        }
    }
}

/// Whether the trimmed range `[a, b)` is shaped `repeat(COUNT,TRACKS)`
/// with a comma outside nested parentheses.
pub open spec fn is_repeat_shape(s: Seq<u8>, a: int, b: int) -> bool {
    range_starts(s, a, b, kw_repeat_open()) && b - a >= 8 && s[b - 1] == 41 && top_comma(
        s,
        a + 7,
        b - 1,
        0,
    ) < b - 1
}

/// A template component: `repeat(COUNT, TRACKS...)`, or a single track
/// sizing function.
pub open spec fn spec_parse_template(s: Seq<u8>, lo: int, hi: int) -> TrackTemplateSpec {
    let a = trim_lo(s, lo, hi);
    let b = trim_hi(s, a, hi);
    if is_repeat_shape(s, a, b) {
        let c = top_comma(s, a + 7, b - 1, 0);
        TrackTemplateSpec::Repeat(spec_repeat_count(s, a + 7, c), spec_track_list(s, c + 1, b - 1))
    } else {
        TrackTemplateSpec::Single(spec_parse_track_sizing(s, a, b))
    }
}

/// Parse a template component from a byte range.
pub fn parse_template_range(s: &[u8], lo: usize, hi: usize) -> (r: TrackTemplate)
    requires
        lo <= hi <= s@.len(),
    ensures
        r.model() == spec_parse_template(s@, lo as int, hi as int),
{
    let a = scan_trim_lo(s, lo, hi);
    let b = scan_trim_hi(s, a, hi);
    let rep_kw: [u8; 7] = [114, 101, 112, 101, 97, 116, 40];
    proof {
        assert(rep_kw@ =~= kw_repeat_open());
    }
    if range_has_prefix(s, a, b, rep_kw.as_slice()) && b - a >= 8 && s[b - 1] == 41 {
        let c = scan_top_comma(s, a + 7, b - 1);
        if c < b - 1 {
            let count = parse_repeat_count(s, a + 7, c);
            let tracks = parse_track_list_range(s, c + 1, b - 1);
            return TrackTemplate::Repeat(count, tracks);
        }
    }
    proof {
        assert(!is_repeat_shape(s@, a as int, b as int));
    }
    TrackTemplate::Single(parse_track_sizing_range(s, a, b))
}

} // verus!
