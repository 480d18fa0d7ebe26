//! Grid track resolution: a track-template string to pixel sizes, and
//! row-major cell rectangles for auto-placed children.

use crate::block::ChildBox;
use crate::grammar::{is_ws, parse_decimal, spec_decimal};
use crate::scalar::SCALAR_SAT;
use vstd::prelude::*;
use vstd::string::StringSliceAdditionalSpecFns;

verus! {

/// Bound on the byte length of a track template.
pub const TEMPLATE_LIMIT: usize = 4096;

/// Bound on the track count and child count of cell placement.
pub const TRACK_LIMIT: usize = 10_000;

/// Bound on one track size handed to cell placement.
pub const TRACK_SIZE_LIMIT: i64 = 1_000_000_000_000;

/// Whitespace-separated token ranges of `[i, hi)`; `start` is where the
/// current token began.
pub open spec fn ws_tok(s: Seq<u8>, i: int, hi: int, start: int) -> Seq<(int, int)>
    decreases hi - i,
{
    if i >= hi {
        if start < hi {
            seq![(start, hi)]
        } else {
            Seq::empty()
        }
    } else if is_ws(s[i]) {
        (if start < i {
            seq![(start, i)]
        } else {
            Seq::empty()
        }) + ws_tok(s, i + 1, hi, i + 1)
    } else {
        ws_tok(s, i + 1, hi, start)
    }
}

/// The whitespace-separated tokens of a template string.
pub open spec fn spec_ws_tokens(s: Seq<u8>) -> Seq<(int, int)> {
    ws_tok(s, 0, s.len() as int, 0)
}

/// Truncating division of a scalar by a positive divisor, on magnitudes.
pub open spec fn div_trunc(a: int, d: int) -> int {
    if a >= 0 {
        a / d
    } else {
        -((-a) / d)
    }
}

/// Clamp a value to the saturation bound.
pub open spec fn sat_i64(x: int) -> int {
    if x > SCALAR_SAT {
        SCALAR_SAT as int
    } else if x < -SCALAR_SAT {
        -SCALAR_SAT as int
    } else {
        x
    }
}

/// One template token: its size and whether it is flexible. A flexible
/// token carries its weight in thousandths of a flex unit; a fixed token
/// carries whole pixels. `Nfr` with an unreadable number weighs one flex
/// unit; `Npx` or `N%` with an unreadable number is zero pixels; `auto`
/// and anything unrecognized weigh one flex unit.
pub open spec fn spec_track_entry(s: Seq<u8>, lo: int, hi: int, avail: int) -> (int, bool) {
    if hi - lo >= 2 && s[hi - 2] == 102 && s[hi - 1] == 114 {
        match spec_decimal(s, lo, hi - 2) {
            Some(m) => (m, true),
            None => (1000, true),
        }
    } else if hi - lo >= 2 && s[hi - 2] == 112 && s[hi - 1] == 120 {
        match spec_decimal(s, lo, hi - 2) {
            Some(m) => (div_trunc(m, 1000), false),
            None => (0, false),
        }
    } else if hi - lo >= 1 && s[hi - 1] == 37 {
        match spec_decimal(s, lo, hi - 1) {
            Some(m) => (sat_i64(div_trunc(m * avail, 100000)), false),
            None => (0, false),
        }
    } else {
        (1000, true)
    }
}

/// The classified entries of a template's tokens.
pub open spec fn spec_track_entries(s: Seq<u8>, avail: int) -> Seq<(int, bool)> {
    spec_ws_tokens(s).map(|k: int, p: (int, int)| spec_track_entry(s, p.0, p.1, avail))
}

/// Sum of the fixed entries' pixel sizes.
pub open spec fn fixed_total(entries: Seq<(int, bool)>) -> int
    decreases entries.len(),
{
    if entries.len() == 0 {
        0
    } else {
        fixed_total(entries.drop_last()) + (if entries.last().1 {
            0
        } else {
            entries.last().0
        })
    }
}

/// Sum of the flexible entries' weights.
pub open spec fn flex_total(entries: Seq<(int, bool)>) -> int
    decreases entries.len(),
{
    if entries.len() == 0 {
        0
    } else {
        flex_total(entries.drop_last()) + (if entries.last().1 {
            entries.last().0
        } else {
            0
        })
    }
}

/// The space left for flexible tracks: available minus fixed sizes and
/// gaps, never negative.
pub open spec fn spec_remaining(entries: Seq<(int, bool)>, avail: int, gap: int) -> int {
    let gaps = if entries.len() > 1 {
        gap * (entries.len() - 1)
    } else {
        0
    };
    let r = avail - fixed_total(entries) - gaps;
    if r >= 0 {
        r
    } else {
        0
    }
}

/// The resolved pixel size of one entry.
pub open spec fn spec_entry_size(e: (int, bool), remaining: int, ft: int) -> int {
    if e.1 {
        if ft > 0 {
            sat_i64(div_trunc(remaining * e.0, ft))
        } else {
            0
        }
    } else {
        e.0
    }
}

/// The resolved pixel sizes of a track template.
pub open spec fn spec_resolve_tracks(s: Seq<u8>, avail: int, gap: int) -> Seq<int> {
    let entries = spec_track_entries(s, avail);
    let rem = spec_remaining(entries, avail, gap);
    let ft = flex_total(entries);
    entries.map(|k: int, e: (int, bool)| spec_entry_size(e, rem, ft))
}

/// Split a template into whitespace-separated token ranges.
fn scan_ws_tokens(s: &[u8]) -> (r: Vec<(usize, usize)>)
    ensures
        r@.map(|k: int, p: (usize, usize)| (p.0 as int, p.1 as int)) == spec_ws_tokens(s@),
        forall|k: int| 0 <= k < r@.len() ==> #[trigger] r@[k].0 < r@[k].1 <= s@.len(),
        r@.len() <= s@.len(),
{
    let n = s.len();
    let mut out: Vec<(usize, usize)> = Vec::new();
    let mut i: usize = 0;
    let mut start: usize = 0;
    while i < n
        invariant
            n == s@.len(),
            start <= i <= n,
            out@.map(|k: int, p: (usize, usize)| (p.0 as int, p.1 as int)) + ws_tok(
                s@,
                i as int,
                n as int,
                start as int,
            ) =~= spec_ws_tokens(s@),
            forall|k: int| 0 <= k < out@.len() ==> #[trigger] out@[k].0 < out@[k].1 <= s@.len(),
            out@.len() + (i - start) <= i,
        decreases n - i,
    {
        let b = s[i];
        if b == 32 || b == 9 || b == 10 || b == 13 {
            if start < i {
                let ghost before = out@;
                out.push((start, i));
                proof {
                    assert(out@.map(|k: int, p: (usize, usize)| (p.0 as int, p.1 as int))
                        =~= before.map(|k: int, p: (usize, usize)| (p.0 as int, p.1 as int))
                        + seq![(start as int, i as int)]);
                }
            }
            i = i + 1;
            start = i;
        } else {
            i = i + 1;
        }
        proof {
            assert(forall|k: int|
                0 <= k < out@.len() ==> #[trigger] out@[k].0 < out@[k].1 <= s@.len());
        }
    }
    if start < n {
        let ghost before = out@;
        out.push((start, n));
        proof {
            assert(out@.map(|k: int, p: (usize, usize)| (p.0 as int, p.1 as int)) =~= before.map(
                |k: int, p: (usize, usize)| (p.0 as int, p.1 as int),
            ) + seq![(start as int, n as int)]);
        }
    }
    proof {
        assert(out@.map(|k: int, p: (usize, usize)| (p.0 as int, p.1 as int)) =~= spec_ws_tokens(
            s@,
        ));
    }
    out
}

/// Truncating division of a 128-bit product by a positive divisor.
fn mul_div_trunc(a: i64, b: i64, d: i64) -> (r: i64)
    requires
        0 <= a <= 5_000_000_000_000_000_000,
        -SCALAR_SAT <= b <= SCALAR_SAT,
        0 < d,
    ensures
        r == sat_i64(div_trunc(a * b, d as int)),
{
    let neg = b < 0;
    let bm: i128 = if neg {
        -(b as i128)
    } else {
        b as i128
    };
    proof {
        assert(0 <= (a as int) * (bm as int) <= 5_000_000_000_000_000_000 * (SCALAR_SAT as int))
            by (nonlinear_arith)
            requires
                0 <= a <= 5_000_000_000_000_000_000,
                0 <= bm <= SCALAR_SAT,
        ;
    }
    let prod: i128 = (a as i128) * bm;
    let q: i128 = prod / (d as i128);
    let qc: i64 = if q > SCALAR_SAT as i128 {
        SCALAR_SAT
    } else {
        q as i64
    };
    proof {
        assert(0 <= q <= prod) by (nonlinear_arith)
            requires
                q == prod / (d as i128),
                prod >= 0,
                d >= 1,
        ;
        if neg {
            assert(a * b == -(a * bm)) by (nonlinear_arith)
                requires
                    bm == -b,
            ;
        } else {
            assert(a * b == a * bm);
        }
    }
    if neg {
        -qc
    } else {
        qc
    }
}

/// Every classified entry's value is within the saturation bound.
proof fn lemma_entry_bounds(s: Seq<u8>, lo: int, hi: int, avail: int)
    requires
        -1_000_000_000 <= avail <= 1_000_000_000,
    ensures
        -SCALAR_SAT <= spec_track_entry(s, lo, hi, avail).0 <= SCALAR_SAT,
{
    crate::grammar::lemma_decimal_range(s, lo, hi - 2);
    crate::grammar::lemma_decimal_range(s, lo, hi - 1);
}

/// Resolve a track-template string into pixel track sizes.
///
/// Each whitespace token is a flexible weight (`Nfr`, `auto`, or anything
/// unrecognized, the latter two weighing one unit), a fixed pixel size
/// (`Npx`), or a fixed fraction of `available` (`N%`). Fixed sizes and
/// gaps are subtracted from `available`; what remains (never negative) is
/// split over the flexible tracks in proportion to their weights.
#[verifier::rlimit(50)]
pub fn parse_tracks(template: &str, available: i64, gap: i64) -> (r: Vec<i64>)
    requires
        template.spec_bytes().len() <= TEMPLATE_LIMIT,
        -1_000_000_000 <= available <= 1_000_000_000,
        -1_000_000_000 <= gap <= 1_000_000_000,
    ensures
        r@.map(|k: int, v: i64| v as int) == spec_resolve_tracks(
            template.spec_bytes(),
            available as int,
            gap as int,
        ),
{
    let b = template.as_bytes();
    let tokens = scan_ws_tokens(b);
    let n = tokens.len();
    let ghost sb = b@;
    let ghost entries_spec = spec_track_entries(sb, available as int);
    let mut entries: Vec<(i64, bool)> = Vec::new();
    let avail_mag: i64 = if available < 0 {
        -available
    } else {
        available
    };
    let mut k: usize = 0;
    while k < n
        invariant
            n == tokens@.len(),
            k <= n,
            sb == b@,
            forall|j: int| 0 <= j < n ==> #[trigger] tokens@[j].0 < tokens@[j].1 <= sb.len(),
            tokens@.map(|j: int, p: (usize, usize)| (p.0 as int, p.1 as int)) == spec_ws_tokens(
                sb,
            ),
            entries_spec == spec_track_entries(sb, available as int),
            -1_000_000_000 <= available <= 1_000_000_000,
            avail_mag == (if available < 0 {
                -(available as int)
            } else {
                available as int
            }),
            entries@.len() == k,
            forall|j: int|
                0 <= j < k ==> ((#[trigger] entries@[j]).0 as int, entries@[j].1)
                    == entries_spec[j],
            forall|j: int| 0 <= j < k ==> -SCALAR_SAT <= (#[trigger] entries@[j]).0 <= SCALAR_SAT,
        decreases n - k,
    {
        let (lo, hi) = (tokens[k].0, tokens[k].1);
        let e: (i64, bool);
        if hi - lo >= 2 && b[hi - 2] == 102 && b[hi - 1] == 114 {
            e = match parse_decimal(b, lo, hi - 2) {
                Some(m) => (m, true),
                None => (1000, true),
            };
        } else if hi - lo >= 2 && b[hi - 2] == 112 && b[hi - 1] == 120 {
            e = match parse_decimal(b, lo, hi - 2) {
                Some(m) => {
                    let px = if m >= 0 {
                        m / 1000
                    } else {
                        -((-m) / 1000)
                    };
                    (px, false)
                },
                None => (0, false),
            };
        } else if hi - lo >= 1 && b[hi - 1] == 37 {
            e = match parse_decimal(b, lo, hi - 1) {
                Some(m) => {
                    let v = mul_div_trunc(avail_mag, m, 100000);
                    let signed = if available < 0 {
                        -v
                    } else {
                        v
                    };
                    proof {
                        let want = sat_i64(
                            div_trunc(m * (available as int), 100000),
                        );
                        if available < 0 {
                            assert((avail_mag as int) * (m as int) == -(m * (available as int)))
                                by (nonlinear_arith)
                                requires
                                    avail_mag == -(available as int),
                            ;
                        } else {
                            assert((avail_mag as int) * (m as int) == m * (available as int))
                                by (nonlinear_arith)
                                requires
                                    avail_mag == available as int,
                            ;
                        }
                        assert(signed == want);
                    }
                    (signed, false)
                },
                None => (0, false),
            };
        } else {
            e = (1000, true);
        }
        proof {
            assert(entries_spec[k as int] == spec_track_entry(
                sb,
                tokens@[k as int].0 as int,
                tokens@[k as int].1 as int,
                available as int,
            ));
            lemma_entry_bounds(sb, lo as int, hi as int, available as int);
        }
        entries.push(e);
        k = k + 1;
    }
    proof {
        assert(entries@.map(|j: int, p: (i64, bool)| (p.0 as int, p.1)) =~= entries_spec);
    }
    // First pass totals.
    let ghost em = entries@.map(|j: int, p: (i64, bool)| (p.0 as int, p.1));
    let mut fixed_sum: i64 = 0;
    let mut flex_sum: i64 = 0;
    let mut t: usize = 0;
    proof {
        assert(em.take(0) =~= Seq::<(int, bool)>::empty());
    }
    while t < n
        invariant
            n == entries@.len() == em.len(),
            n <= TEMPLATE_LIMIT,
            t <= n,
            em == entries@.map(|j: int, p: (i64, bool)| (p.0 as int, p.1)),
            forall|j: int| 0 <= j < n ==> -SCALAR_SAT <= (#[trigger] entries@[j]).0 <= SCALAR_SAT,
            fixed_sum == fixed_total(em.take(t as int)),
            flex_sum == flex_total(em.take(t as int)),
            -1_000_000_000_000_000 * t <= fixed_sum <= 1_000_000_000_000_000 * t,
            -1_000_000_000_000_000 * t <= flex_sum <= 1_000_000_000_000_000 * t,
        decreases n - t,
    {
        proof {
            assert(em.take(t + 1).drop_last() =~= em.take(t as int));
            assert(em.take(t + 1).last() == em[t as int]);
        }
        let e = entries[t];
        if e.1 {
            flex_sum = flex_sum + e.0;
        } else {
            fixed_sum = fixed_sum + e.0;
        }
        t = t + 1;
    }
    proof {
        assert(em.take(n as int) =~= em);
    }
    let total_gap: i64 = if n > 1 {
        proof {
            assert(-1_000_000_000 * 4096 <= (gap as int) * ((n - 1) as int) <= 1_000_000_000
                * 4096) by (nonlinear_arith)
                requires
                    -1_000_000_000 <= gap <= 1_000_000_000,
                    1 <= n <= 4096,
            ;
        }
        gap * ((n - 1) as i64)
    } else {
        0
    };
    let rem0 = available - fixed_sum - total_gap;
    let remaining: i64 = if rem0 >= 0 {
        rem0
    } else {
        0
    };
    proof {
        assert(remaining as int == spec_remaining(em, available as int, gap as int));
    }
    // Second pass: resolve.
    let mut result: Vec<i64> = Vec::new();
    let mut u: usize = 0;
    while u < n
        invariant
            n == entries@.len() == em.len(),
            u <= n,
            em == entries@.map(|j: int, p: (i64, bool)| (p.0 as int, p.1)),
            forall|j: int| 0 <= j < n ==> -SCALAR_SAT <= (#[trigger] entries@[j]).0 <= SCALAR_SAT,
            0 <= remaining <= 5_000_000_000_000_000_000,
            flex_sum == flex_total(em),
            result@.len() == u,
            forall|j: int|
                0 <= j < u ==> (#[trigger] result@[j]) as int == spec_entry_size(
                    em[j],
                    remaining as int,
                    flex_total(em),
                ),
        decreases n - u,
    {
        let e = entries[u];
        let v: i64;
        if e.1 {
            if flex_sum > 0 {
                v = mul_div_trunc(remaining, e.0, flex_sum);
            } else {
                v = 0;
            }
        } else {
            v = e.0;
        }
        result.push(v);
        u = u + 1;
    }
    proof {
        assert(result@.map(|k: int, v: i64| v as int) =~= spec_resolve_tracks(
            sb,
            available as int,
            gap as int,
        ));
    }
    result
}

/// Position of the left or top edge of track `k`: the sizes of the
/// preceding tracks plus one gap per crossed boundary.
pub open spec fn track_pos(tracks: Seq<i64>, gap: int, k: int) -> int
    decreases k,
{
    if k <= 0 {
        0
    } else {
        track_pos(tracks, gap, k - 1) + tracks[k - 1] + (if k - 1 < tracks.len() - 1 {
            gap
        } else {
            0
        })
    }
}

/// The rectangle of auto-placed child `i`, row-major over the column
/// tracks; children beyond the provided tracks fall back to the first
/// track's size, or one hundred pixels when there are no tracks.
pub open spec fn spec_cell_rect(
    tx: Seq<i64>,
    ty: Seq<i64>,
    col_gap: int,
    row_gap: int,
    i: int,
) -> (int, int, int, int) {
    let cols = if tx.len() >= 1 {
        tx.len() as int
    } else {
        1
    };
    let col = i % cols;
    let row = i / cols;
    let x = if col < tx.len() {
        track_pos(tx, col_gap, col)
    } else {
        0
    };
    let y = if row < ty.len() {
        track_pos(ty, row_gap, row)
    } else {
        0
    };
    let w = if col < tx.len() {
        tx[col] as int
    } else if tx.len() > 0 {
        tx[0] as int
    } else {
        100
    };
    let h = if row < ty.len() {
        ty[row] as int
    } else if ty.len() > 0 {
        ty[0] as int
    } else {
        100
    };
    (x, y, w, h)
}

/// Bound on a track-edge position.
proof fn lemma_track_pos_bounds(tracks: Seq<i64>, gap: int, k: int)
    requires
        0 <= k <= tracks.len() <= TRACK_LIMIT,
        forall|j: int| 0 <= j < tracks.len() ==> -TRACK_SIZE_LIMIT <= #[trigger] tracks[j] <= TRACK_SIZE_LIMIT,
        -1_000_000_000 <= gap <= 1_000_000_000,
    ensures
        -1_100_000_000_000 * k <= track_pos(tracks, gap, k) <= 1_100_000_000_000 * k,
    decreases k,
{
    if k > 0 {
        lemma_track_pos_bounds(tracks, gap, k - 1);
    }
}

/// Compute row-major cell rectangles for auto-placed children.
#[verifier::rlimit(50)]
pub fn calculate_cell_positions(
    tracks_x: &Vec<i64>,
    tracks_y: &Vec<i64>,
    col_gap: i64,
    row_gap: i64,
    child_count: u32,
) -> (r: Vec<ChildBox>)
    requires
        tracks_x@.len() <= TRACK_LIMIT,
        tracks_y@.len() <= TRACK_LIMIT,
        forall|j: int|
            0 <= j < tracks_x@.len() ==> -TRACK_SIZE_LIMIT <= #[trigger] tracks_x@[j]
                <= TRACK_SIZE_LIMIT,
        forall|j: int|
            0 <= j < tracks_y@.len() ==> -TRACK_SIZE_LIMIT <= #[trigger] tracks_y@[j]
                <= TRACK_SIZE_LIMIT,
        -1_000_000_000 <= col_gap <= 1_000_000_000,
        -1_000_000_000 <= row_gap <= 1_000_000_000,
    ensures
        r@.len() == child_count,
        forall|i: int|
            0 <= i < child_count ==> {
                let q = spec_cell_rect(
                    tracks_x@,
                    tracks_y@,
                    col_gap as int,
                    row_gap as int,
                    i,
                );
                &&& (#[trigger] r@[i]).x == q.0
                &&& r@[i].y == q.1
                &&& r@[i].width == q.2
                &&& r@[i].height == q.3
            },
{
    let cols: usize = if tracks_x.len() >= 1 {
        tracks_x.len()
    } else {
        1
    };
    // Precompute column positions.
    let mut col_x: Vec<i64> = Vec::new();
    let mut i: usize = 0;
    let nx = tracks_x.len();
    while i < nx
        invariant
            nx == tracks_x@.len() <= TRACK_LIMIT,
            i <= nx,
            forall|j: int|
                0 <= j < nx ==> -TRACK_SIZE_LIMIT <= #[trigger] tracks_x@[j] <= TRACK_SIZE_LIMIT,
            -1_000_000_000 <= col_gap <= 1_000_000_000,
            col_x@.len() == i,
            forall|j: int|
                0 <= j < i ==> (#[trigger] col_x@[j]) as int == track_pos(
                    tracks_x@,
                    col_gap as int,
                    j,
                ),
        decreases nx - i,
    {
        proof {
            lemma_track_pos_bounds(tracks_x@, col_gap as int, i as int);
        }
        let prev: i64 = if i == 0 {
            0
        } else {
            let base = col_x[i - 1];
            let step = tracks_x[i - 1] + (if i - 1 < nx - 1 {
                col_gap
            } else {
                0
            });
            proof {
                lemma_track_pos_bounds(tracks_x@, col_gap as int, i - 1);
            }
            base + step
        };
        col_x.push(prev);
        i = i + 1;
    }
    // Precompute row positions.
    let mut row_y: Vec<i64> = Vec::new();
    let mut i2: usize = 0;
    let ny = tracks_y.len();
    while i2 < ny
        invariant
            ny == tracks_y@.len() <= TRACK_LIMIT,
            i2 <= ny,
            forall|j: int|
                0 <= j < ny ==> -TRACK_SIZE_LIMIT <= #[trigger] tracks_y@[j] <= TRACK_SIZE_LIMIT,
            -1_000_000_000 <= row_gap <= 1_000_000_000,
            row_y@.len() == i2,
            forall|j: int|
                0 <= j < i2 ==> (#[trigger] row_y@[j]) as int == track_pos(
                    tracks_y@,
                    row_gap as int,
                    j,
                ),
        decreases ny - i2,
    {
        proof {
            lemma_track_pos_bounds(tracks_y@, row_gap as int, i2 as int);
        }
        let prev: i64 = if i2 == 0 {
            0
        } else {
            let base = row_y[i2 - 1];
            let step = tracks_y[i2 - 1] + (if i2 - 1 < ny - 1 {
                row_gap
            } else {
                0
            });
            proof {
                lemma_track_pos_bounds(tracks_y@, row_gap as int, i2 - 1);
            }
            base + step
        };
        row_y.push(prev);
        i2 = i2 + 1;
    }
    let count = child_count as usize;
    let mut result: Vec<ChildBox> = Vec::new();
    let mut c: usize = 0;
    while c < count
        invariant
            count == child_count as int,
            c <= count,
            cols >= 1,
            cols == (if tracks_x@.len() >= 1 {
                tracks_x@.len() as int
            } else {
                1
            }),
            nx == tracks_x@.len(),
            ny == tracks_y@.len(),
            col_x@.len() == nx,
            row_y@.len() == ny,
            forall|j: int|
                0 <= j < nx ==> (#[trigger] col_x@[j]) as int == track_pos(
                    tracks_x@,
                    col_gap as int,
                    j,
                ),
            forall|j: int|
                0 <= j < ny ==> (#[trigger] row_y@[j]) as int == track_pos(
                    tracks_y@,
                    row_gap as int,
                    j,
                ),
            result@.len() == c,
            forall|i3: int|
                0 <= i3 < c ==> {
                    let q = spec_cell_rect(
                        tracks_x@,
                        tracks_y@,
                        col_gap as int,
                        row_gap as int,
                        i3,
                    );
                    &&& (#[trigger] result@[i3]).x == q.0
                    &&& result@[i3].y == q.1
                    &&& result@[i3].width == q.2
                    &&& result@[i3].height == q.3
                },
        decreases count - c,
    {
        let col = c % cols;
        let row = c / cols;
        let x: i64 = if col < col_x.len() {
            col_x[col]
        } else {
            0
        };
        let y: i64 = if row < row_y.len() {
            row_y[row]
        } else {
            0
        };
        let w: i64 = if col < tracks_x.len() {
            tracks_x[col]
        } else if tracks_x.len() > 0 {
            tracks_x[0]
        } else {
            100
        };
        let h: i64 = if row < tracks_y.len() {
            tracks_y[row]
        } else if tracks_y.len() > 0 {
            tracks_y[0]
        } else {
            100
        };
        result.push(ChildBox { x, y, width: w, height: h });
        c = c + 1;
    }
    result
}

} // verus!
