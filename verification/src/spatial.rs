//! A grid-cell spatial index over element bounding boxes.
//!
//! Elements live in scene coordinates; every element occupies each grid
//! cell its box overlaps, and rectangle or point queries enumerate the
//! overlapped cells as a coarse filter before verifying true
//! intersection. The structure's invariant is that an element appears in
//! exactly the cell buckets that recomputing its covered cells from its
//! cached bounds would give.

use vstd::prelude::*;

verus! {

/// Default cell edge length.
pub const DEFAULT_CELL_SIZE: i64 = 256;

/// Bound on every coordinate handed to the index.
pub const SCENE_LIMIT: i64 = 1_000_000_000_000_000;

/// A grid cell's coordinates.
#[derive(Clone, Copy, Debug, PartialEq, Eq, Structural)]
pub struct CellKey {
    pub cx: i64,
    pub cy: i64,
}

/// One indexed element: its id and cached bounds.
#[derive(Clone, Copy, Debug, PartialEq, Eq, Structural)]
pub struct SpatialEntry {
    pub id: u32,
    pub x: i64,
    pub y: i64,
    pub w: i64,
    pub h: i64,
}

/// The grid-cell spatial index.
pub struct SpatialIndex {
    cell_size: i64,
    cells: Vec<(CellKey, Vec<u32>)>,
    entries: Vec<SpatialEntry>,
}

/// Whether the box `(x, y, w, h)` overlaps cell `(a, b)` of edge `cs`:
/// the cell lies within the box's covered cell ranges.
pub open spec fn covers(x: int, y: int, w: int, h: int, cs: int, a: int, b: int) -> bool {
    &&& x / cs <= a <= (x + w) / cs
    &&& y / cs <= b <= (y + h) / cs
}

/// The entry with the given id, the newest occurrence winning.
pub open spec fn entry_of(s: Seq<SpatialEntry>, id: u32) -> Option<SpatialEntry>
    decreases s.len(),
{
    if s.len() == 0 {
        None
    } else if s.last().id == id {
        Some(s.last())
    } else {
        entry_of(s.drop_last(), id)
    }
}

/// The ids bucketed under a cell key (empty when the key is absent).
pub open spec fn bucket_of(cells: Seq<(CellKey, Seq<u32>)>, k: CellKey) -> Seq<u32>
    decreases cells.len(),
{
    if cells.len() == 0 {
        Seq::empty()
    } else if cells.last().0 == k {
        cells.last().1
    } else {
        bucket_of(cells.drop_last(), k)
    }
}

/// Whether some bucket carries the key.
pub open spec fn has_key(cells: Seq<(CellKey, Seq<u32>)>, k: CellKey) -> bool
    decreases cells.len(),
{
    if cells.len() == 0 {
        false
    } else {
        cells.last().0 == k || has_key(cells.drop_last(), k)
    }
}

/// The sequence with every occurrence of `id` dropped, order kept.
pub open spec fn without(s: Seq<u32>, id: u32) -> Seq<u32>
    decreases s.len(),
{
    if s.len() == 0 {
        Seq::empty()
    } else {
        let rest = without(s.drop_last(), id);
        if s.last() != id {
            rest.push(s.last())
        } else {
            rest
        }
    }
}

/// Membership in the dropped sequence.
proof fn lemma_without_contains(s: Seq<u32>, id: u32, j: u32)
    ensures
        without(s, id).contains(j) <==> (s.contains(j) && j != id),
    decreases s.len(),
{
    if s.len() > 0 {
        lemma_without_contains(s.drop_last(), id, j);
        lemma_push_contains(s.drop_last(), s.last(), j);
        assert(s =~= s.drop_last().push(s.last()));
        if s.last() != id {
            lemma_push_contains(without(s.drop_last(), id), s.last(), j);
        }
    }
}

/// With unique keys, the bucket under a present key is the one at its
/// index.
proof fn lemma_bucket_at(cells: Seq<(CellKey, Seq<u32>)>, i: int)
    requires
        0 <= i < cells.len(),
        forall|p: int, q: int|
            0 <= p < q < cells.len() ==> (#[trigger] cells[p]).0 != (#[trigger] cells[q]).0,
    ensures
        bucket_of(cells, cells[i].0) == cells[i].1,
        has_key(cells, cells[i].0),
    decreases cells.len(),
{
    if i == cells.len() - 1 {
        assert(cells.last() == cells[i]);
    } else {
        assert(cells.last() == cells[cells.len() - 1]);
        assert(cells[i].0 != cells[cells.len() - 1].0);
        assert(cells.drop_last()[i] == cells[i]);
        lemma_bucket_at(cells.drop_last(), i);
    }
}

/// A key carried by no bucket has an empty bucket.
proof fn lemma_bucket_absent(cells: Seq<(CellKey, Seq<u32>)>, k: CellKey)
    requires
        forall|p: int| 0 <= p < cells.len() ==> (#[trigger] cells[p]).0 != k,
    ensures
        bucket_of(cells, k) == Seq::<u32>::empty(),
        !has_key(cells, k),
    decreases cells.len(),
{
    if cells.len() > 0 {
        assert(cells.last() == cells[cells.len() - 1]);
        assert(forall|p: int|
            0 <= p < cells.drop_last().len() ==> (#[trigger] cells.drop_last()[p]).0 == cells[p].0
                && cells[p].0 != k);
        lemma_bucket_absent(cells.drop_last(), k);
    }
}

/// Removing the bucket at an index empties that key and leaves the rest.
proof fn lemma_bucket_remove(cells: Seq<(CellKey, Seq<u32>)>, i: int, k: CellKey)
    requires
        0 <= i < cells.len(),
        forall|p: int, q: int|
            0 <= p < q < cells.len() ==> (#[trigger] cells[p]).0 != (#[trigger] cells[q]).0,
    ensures
        k != cells[i].0 ==> bucket_of(cells.remove(i), k) == bucket_of(cells, k),
        k == cells[i].0 ==> bucket_of(cells.remove(i), k) == Seq::<u32>::empty(),
    decreases cells.len(),
{
    let rem = cells.remove(i);
    if k == cells[i].0 {
        assert(forall|p: int| 0 <= p < rem.len() ==> (#[trigger] rem[p]).0 != k) by {
            assert(forall|p: int|
                0 <= p < rem.len() ==> rem[p] == (if p < i {
                    cells[p]
                } else {
                    cells[p + 1]
                }));
        };
        lemma_bucket_absent(rem, k);
    } else {
        if i == cells.len() - 1 {
            assert(rem =~= cells.drop_last());
        } else {
            assert(cells.last() == cells[cells.len() - 1]);
            assert(rem.last() == cells.last());
            if cells.last().0 == k {
            } else {
                assert(rem.drop_last() =~= cells.drop_last().remove(i));
                assert(forall|p: int, q: int|
                    0 <= p < q < cells.drop_last().len() ==> (#[trigger] cells.drop_last()[p]).0
                        != (#[trigger] cells.drop_last()[q]).0);
                lemma_bucket_remove(cells.drop_last(), i, k);
            }
        }
    }
}

/// The entry lookup after removing the entry at an index.
proof fn lemma_entry_remove(s: Seq<SpatialEntry>, i: int, id: u32)
    requires
        0 <= i < s.len(),
        forall|p: int, q: int|
            0 <= p < q < s.len() ==> (#[trigger] s[p]).id != (#[trigger] s[q]).id,
    ensures
        id != s[i].id ==> entry_of(s.remove(i), id) == entry_of(s, id),
        id == s[i].id ==> entry_of(s.remove(i), id) is None,
    decreases s.len(),
{
    let rem = s.remove(i);
    if id == s[i].id {
        assert(forall|p: int| 0 <= p < rem.len() ==> (#[trigger] rem[p]).id != id) by {
            assert(forall|p: int|
                0 <= p < rem.len() ==> rem[p] == (if p < i {
                    s[p]
                } else {
                    s[p + 1]
                }));
        };
        lemma_entry_absent(rem, id);
    } else {
        if i == s.len() - 1 {
            assert(rem =~= s.drop_last());
        } else {
            assert(s.last() == s[s.len() - 1]);
            assert(rem.last() == s.last());
            if s.last().id == id {
            } else {
                assert(rem.drop_last() =~= s.drop_last().remove(i));
                assert(forall|p: int, q: int|
                    0 <= p < q < s.drop_last().len() ==> (#[trigger] s.drop_last()[p]).id != (
                    #[trigger] s.drop_last()[q]).id);
                lemma_entry_remove(s.drop_last(), i, id);
            }
        }
    }
}

/// An id carried by no entry resolves to nothing.
proof fn lemma_entry_absent(s: Seq<SpatialEntry>, id: u32)
    requires
        forall|p: int| 0 <= p < s.len() ==> (#[trigger] s[p]).id != id,
    ensures
        entry_of(s, id) is None,
    decreases s.len(),
{
    if s.len() > 0 {
        assert(s.last() == s[s.len() - 1]);
        assert(forall|p: int|
            0 <= p < s.drop_last().len() ==> (#[trigger] s.drop_last()[p]).id == s[p].id && s[p].id
                != id);
        lemma_entry_absent(s.drop_last(), id);
    }
}

/// With unique ids, the entry under a present id is the one at its index.
proof fn lemma_entry_at(s: Seq<SpatialEntry>, i: int)
    requires
        0 <= i < s.len(),
        forall|p: int, q: int|
            0 <= p < q < s.len() ==> (#[trigger] s[p]).id != (#[trigger] s[q]).id,
    ensures
        entry_of(s, s[i].id) == Some(s[i]),
    decreases s.len(),
{
    if i == s.len() - 1 {
        assert(s.last() == s[i]);
    } else {
        assert(s.last() == s[s.len() - 1]);
        assert(s[i].id != s[s.len() - 1].id);
        assert(s.drop_last()[i] == s[i]);
        lemma_entry_at(s.drop_last(), i);
    }
}

/// The specification value of the cell table.
pub open spec fn cells_model(v: Seq<(CellKey, Vec<u32>)>) -> Seq<(CellKey, Seq<u32>)> {
    v.map(|i: int, p: (CellKey, Vec<u32>)| (p.0, p.1@))
}

/// Two axis-aligned boxes overlap.
pub open spec fn spec_intersects(
    ax: int,
    ay: int,
    aw: int,
    ah: int,
    bx: int,
    by: int,
    bw: int,
    bh: int,
) -> bool {
    ax < bx + bw && ax + aw > bx && ay < by + bh && ay + ah > by
}

/// A point lies in a box (edges included).
pub open spec fn spec_contains_point(x: int, y: int, w: int, h: int, px: int, py: int) -> bool {
    px >= x && px <= x + w && py >= y && py <= y + h
}

impl SpatialIndex {
    /// The configured cell edge length.
    pub closed spec fn spec_cell_size(self) -> int {
        self.cell_size as int
    }

    /// The indexed elements, newest occurrence of an id winning.
    pub closed spec fn entry(self, id: u32) -> Option<SpatialEntry> {
        entry_of(self.entries@, id)
    }

    /// How many elements are indexed.
    pub closed spec fn spec_count(self) -> int {
        self.entries@.len() as int
    }

    /// Structure invariant: a positive cell size, bounded bounds, one
    /// entry per id, and cell buckets that hold exactly the ids whose
    /// cached bounds cover the bucket's cell.
    pub closed spec fn wf(self) -> bool {
        &&& 0 < self.cell_size <= SCENE_LIMIT
        &&& forall|i: int, j: int|
            0 <= i < j < self.entries@.len() ==> (#[trigger] self.entries@[i]).id != (
            #[trigger] self.entries@[j]).id
        &&& forall|i: int|
            0 <= i < self.entries@.len() ==> {
                let e = #[trigger] self.entries@[i];
                &&& 0 < e.w <= SCENE_LIMIT
                &&& 0 < e.h <= SCENE_LIMIT
                &&& -SCENE_LIMIT <= e.x <= SCENE_LIMIT
                &&& -SCENE_LIMIT <= e.y <= SCENE_LIMIT
            }
        &&& forall|i: int, j: int|
            0 <= i < j < self.cells@.len() ==> (#[trigger] self.cells@[i]).0 != (
            #[trigger] self.cells@[j]).0
        &&& forall|a: i64, b: i64, id: u32|
            #[trigger] bucket_of(cells_model(self.cells@), CellKey { cx: a, cy: b }).contains(id)
                <==> (entry_of(self.entries@, id) matches Some(e) && covers(
                e.x as int,
                e.y as int,
                e.w as int,
                e.h as int,
                self.cell_size as int,
                a as int,
                b as int,
            ))
    }
}

/// What one record of a flat batch does to the entry of id `j`:
/// records run `[id, x, y, w, h]`, later records win, and a record with
/// a non-positive extent removes the id.
pub open spec fn batch_entry(
    prior: Option<SpatialEntry>,
    data: Seq<i64>,
    n: int,
    j: u32,
) -> Option<SpatialEntry>
    decreases n,
{
    if n <= 0 {
        prior
    } else {
        let off = 5 * (n - 1);
        let id = data[off] as u32;
        if id == j {
            if data[off + 3] <= 0 || data[off + 4] <= 0 {
                None
            } else {
                Some(
                    SpatialEntry {
                        id: j,
                        x: data[off + 1],
                        y: data[off + 2],
                        w: data[off + 3],
                        h: data[off + 4],
                    },
                )
            }
        } else {
            batch_entry(prior, data, n - 1, j)
        }
    }
}

/// The element count after a flat batch: each record removes its id's
/// old entry, then a positive-extent record adds the new one.
pub open spec fn batch_count(s0: SpatialIndex, data: Seq<i64>, n: int) -> int
    decreases n,
{
    if n <= 0 {
        s0.spec_count()
    } else {
        let off = 5 * (n - 1);
        let id = data[off] as u32;
        let had = batch_entry(s0.entry(id), data, n - 1, id) is Some;
        let keep = data[off + 3] > 0 && data[off + 4] > 0;
        batch_count(s0, data, n - 1) - (if had {
            1int
        } else {
            0int
        }) + (if keep {
            1int
        } else {
            0int
        })
    }
}

impl SpatialIndex {
    /// Create an index with the given cell edge length; a non-positive
    /// length falls back to the default, and an oversized one is capped
    /// at the scene bound.
    pub fn new(cell_size: i64) -> (r: SpatialIndex)
        ensures
            r.wf(),
            r.spec_cell_size() == (if cell_size <= 0 {
                DEFAULT_CELL_SIZE as int
            } else if cell_size > SCENE_LIMIT {
                SCENE_LIMIT as int
            } else {
                cell_size as int
            }),
            r.spec_count() == 0,
            forall|j: u32| r.entry(j) is None,
    {
        let cs = if cell_size <= 0 {
            DEFAULT_CELL_SIZE
        } else if cell_size > SCENE_LIMIT {
            SCENE_LIMIT
        } else {
            cell_size
        };
        let r = SpatialIndex { cell_size: cs, cells: Vec::new(), entries: Vec::new() };
        proof {
            assert(forall|a: i64, b: i64, id: u32|
                !#[trigger] bucket_of(cells_model(r.cells@), CellKey { cx: a, cy: b }).contains(
                    id,
                ));
            assert(forall|id: u32| entry_of(r.entries@, id) is None);
        }
        r
    }

    /// The number of indexed elements.
    pub fn count(&self) -> (r: u32)
        requires
            self.wf(),
        ensures
            self.spec_count() < 0x1_0000_0000 ==> r == self.spec_count(),
    {
        self.entries.len() as u32
    }

    /// Drop every element.
    pub fn clear(&mut self)
        requires
            old(self).wf(),
        ensures
            final(self).wf(),
            final(self).spec_cell_size() == old(self).spec_cell_size(),
            final(self).spec_count() == 0,
            forall|j: u32| final(self).entry(j) is None,
    {
        self.cells = Vec::new();
        self.entries = Vec::new();
        proof {
            assert(forall|a: i64, b: i64, id: u32|
                !#[trigger] bucket_of(cells_model(self.cells@), CellKey { cx: a, cy: b }).contains(
                    id,
                ));
            assert(forall|id: u32| entry_of(self.entries@, id) is None);
        }
    }

    /// Find the cached entry of an id.
    fn find_entry(&self, id: u32) -> (r: Option<SpatialEntry>)
        requires
            self.wf(),
        ensures
            r == self.entry(id),
    {
        let n = self.entries.len();
        let mut i: usize = n;
        proof {
            assert(self.entries@.take(n as int) =~= self.entries@);
        }
        while i > 0
            invariant
                self.wf(),
                i <= n == self.entries@.len(),
                entry_of(self.entries@, id) == entry_of(self.entries@.take(i as int), id),
            decreases i,
        {
            i = i - 1;
            proof {
                assert(self.entries@.take(i + 1).drop_last() =~= self.entries@.take(i as int));
                assert(self.entries@.take(i + 1).last() == self.entries@[i as int]);
            }
            if self.entries[i].id == id {
                return Some(self.entries[i]);
            }
        }
        proof {
            assert(self.entries@.take(0) =~= Seq::<SpatialEntry>::empty());
        }
        None
    }

    /// The grid cells an axis-aligned box overlaps.
    fn compute_cells(&self, x: i64, y: i64, w: i64, h: i64) -> (r: Vec<CellKey>)
        requires
            self.wf(),
            -SCENE_LIMIT <= x <= SCENE_LIMIT,
            -SCENE_LIMIT <= y <= SCENE_LIMIT,
            0 < w <= SCENE_LIMIT,
            0 < h <= SCENE_LIMIT,
        ensures
            forall|a: i64, b: i64|
                r@.contains(CellKey { cx: a, cy: b }) <==> covers(
                    x as int,
                    y as int,
                    w as int,
                    h as int,
                    self.spec_cell_size(),
                    a as int,
                    b as int,
                ),
    {
        let cs = self.cell_size;
        let min_cx = floor_div(x, cs);
        let max_cx = floor_div(x + w, cs);
        let min_cy = floor_div(y, cs);
        let max_cy = floor_div(y + h, cs);
        proof {
            vstd::arithmetic::div_mod::lemma_div_is_ordered(
                x as int,
                (x + w) as int,
                cs as int,
            );
            vstd::arithmetic::div_mod::lemma_div_is_ordered(
                y as int,
                (y + h) as int,
                cs as int,
            );
        }
        let mut out: Vec<CellKey> = Vec::new();
        let mut cx = min_cx;
        while cx <= max_cx
            invariant
                min_cx <= cx <= max_cx + 1,
                -2 * SCENE_LIMIT - 1 <= max_cx <= 2 * SCENE_LIMIT,
                -2 * SCENE_LIMIT - 1 <= max_cy <= 2 * SCENE_LIMIT,
                -2 * SCENE_LIMIT - 1 <= min_cy,
                min_cy <= max_cy,
                min_cx == x as int / self.spec_cell_size(),
                max_cx == (x + w) as int / self.spec_cell_size(),
                min_cy == y as int / self.spec_cell_size(),
                max_cy == (y + h) as int / self.spec_cell_size(),
                forall|a: i64, b: i64|
                    out@.contains(CellKey { cx: a, cy: b }) <==> (covers(
                        x as int,
                        y as int,
                        w as int,
                        h as int,
                        self.spec_cell_size(),
                        a as int,
                        b as int,
                    ) && a < cx),
            decreases max_cx + 1 - cx,
        {
            let mut cy = min_cy;
            while cy <= max_cy
                invariant
                    min_cx <= cx <= max_cx,
                    -2 * SCENE_LIMIT - 1 <= max_cy <= 2 * SCENE_LIMIT,
                    -2 * SCENE_LIMIT - 1 <= max_cx <= 2 * SCENE_LIMIT,
                    min_cy <= cy <= max_cy + 1,
                    min_cx == x as int / self.spec_cell_size(),
                    max_cx == (x + w) as int / self.spec_cell_size(),
                    min_cy == y as int / self.spec_cell_size(),
                    max_cy == (y + h) as int / self.spec_cell_size(),
                    forall|a: i64, b: i64|
                        out@.contains(CellKey { cx: a, cy: b }) <==> (covers(
                            x as int,
                            y as int,
                            w as int,
                            h as int,
                            self.spec_cell_size(),
                            a as int,
                            b as int,
                        ) && (a < cx || (a == cx && b < cy))),
                decreases max_cy + 1 - cy,
            {
                let ghost before = out@;
                out.push(CellKey { cx, cy });
                proof {
                    assert forall|a: i64, b: i64|
                        out@.contains(CellKey { cx: a, cy: b }) <==> (before.contains(
                            CellKey { cx: a, cy: b },
                        ) || (a == cx && b == cy)) by {
                        lemma_push_contains(before, CellKey { cx, cy }, CellKey { cx: a, cy: b });
                    };
                }
                cy = cy + 1;
            }
            proof {
                assert forall|a: i64, b: i64|
                    out@.contains(CellKey { cx: a, cy: b }) <==> (covers(
                        x as int,
                        y as int,
                        w as int,
                        h as int,
                        self.spec_cell_size(),
                        a as int,
                        b as int,
                    ) && a < cx + 1) by {
                    if covers(
                        x as int,
                        y as int,
                        w as int,
                        h as int,
                        self.spec_cell_size(),
                        a as int,
                        b as int,
                    ) {
                        assert(b <= max_cy);
                    }
                };
            }
            cx = cx + 1;
        }
        out
    }

    /// Remove an id from every cell bucket, dropping buckets that become
    /// empty.
    fn remove_from_cells(&mut self, id: u32)
        requires
            forall|p: int, q: int|
                0 <= p < q < old(self).cells@.len() ==> (#[trigger] old(self).cells@[p]).0 != (
                #[trigger] old(self).cells@[q]).0,
        ensures
            final(self).entries == old(self).entries,
            final(self).cell_size == old(self).cell_size,
            forall|p: int, q: int|
                0 <= p < q < final(self).cells@.len() ==> (#[trigger] final(self).cells@[p]).0 != (
                #[trigger] final(self).cells@[q]).0,
            forall|k: CellKey, j: u32|
                #[trigger] bucket_of(cells_model(final(self).cells@), k).contains(j) <==> (
                bucket_of(cells_model(old(self).cells@), k).contains(j) && j != id),
    {
        let n = self.cells.len();
        let mut new_cells: Vec<(CellKey, Vec<u32>)> = Vec::new();
        let mut i: usize = 0;
        let ghost oldm = cells_model(self.cells@);
        proof {
            assert(cells_model(self.cells@.take(0)) =~= Seq::<(CellKey, Seq<u32>)>::empty());
        }
        while i < n
            invariant
                n == self.cells@.len(),
                i <= n,
                oldm == cells_model(self.cells@),
                forall|p: int, q: int|
                    0 <= p < q < n ==> (#[trigger] self.cells@[p]).0 != (
                    #[trigger] self.cells@[q]).0,
                forall|p: int|
                    0 <= p < new_cells@.len() ==> exists|q: int|
                        0 <= q < i && (#[trigger] new_cells@[p]).0 == self.cells@[q].0,
                forall|p: int, q: int|
                    0 <= p < q < new_cells@.len() ==> (#[trigger] new_cells@[p]).0 != (
                    #[trigger] new_cells@[q]).0,
                forall|k: CellKey, j: u32|
                    #[trigger] bucket_of(cells_model(new_cells@), k).contains(j) <==> (bucket_of(
                        cells_model(self.cells@.take(i as int)),
                        k,
                    ).contains(j) && j != id),
            decreases n - i,
        {
            let key = self.cells[i].0;
            let ghost cur = self.cells@[i as int].1@;
            let bucket_len = self.cells[i].1.len();
            let mut kept: Vec<u32> = Vec::new();
            let mut t: usize = 0;
            proof {
                assert(cur.take(0) =~= Seq::<u32>::empty());
                assert(without(cur.take(0), id) == Seq::<u32>::empty());
            }
            while t < bucket_len
                invariant
                    i < n == self.cells@.len(),
                    cur == self.cells@[i as int].1@,
                    bucket_len == cur.len(),
                    t <= bucket_len,
                    kept@ == without(cur.take(t as int), id),
                decreases bucket_len - t,
            {
                let v = self.cells[i].1[t];
                proof {
                    assert(cur.take(t + 1).drop_last() =~= cur.take(t as int));
                    assert(cur.take(t + 1).last() == cur[t as int]);
                }
                if v != id {
                    kept.push(v);
                }
                t = t + 1;
            }
            proof {
                assert(cur.take(bucket_len as int) =~= cur);
            }
            let ghost prefix_m = cells_model(new_cells@);
            if kept.len() > 0 {
                new_cells.push((key, kept));
                proof {
                    assert(cells_model(new_cells@) =~= prefix_m.push(
                        (key, new_cells@.last().1@),
                    ));
                }
            }
            proof {
                let next = cells_model(self.cells@.take(i + 1));
                assert(next =~= cells_model(self.cells@.take(i as int)).push((key, cur)));
                assert(next.last() == (key, cur));
                assert(next.drop_last() =~= cells_model(self.cells@.take(i as int)));
                assert forall|p: int|
                    0 <= p < i implies (#[trigger] self.cells@[p]).0 != key by {}
                assert forall|j: u32| #[trigger] without(cur, id).contains(j) <==> (cur.contains(
                    j,
                ) && j != id) by {
                    lemma_without_contains(cur, id, j);
                };
                if kept@.len() == 0 {
                    assert forall|k: CellKey, j: u32|
                        #[trigger] bucket_of(cells_model(new_cells@), k).contains(j) <==> (
                        bucket_of(next, k).contains(j) && j != id) by {
                        if k == key {
                            assert(bucket_of(next, k) == cur);
                            assert(forall|p: int|
                                0 <= p < cells_model(self.cells@.take(i as int)).len() ==> (
                                #[trigger] cells_model(self.cells@.take(i as int))[p]).0 != key);
                            lemma_bucket_absent(cells_model(self.cells@.take(i as int)), key);
                            assert(!without(cur, id).contains(j));
                            assert(!(cur.contains(j) && j != id));
                        } else {
                            assert(bucket_of(next, k) == bucket_of(
                                cells_model(self.cells@.take(i as int)),
                                k,
                            ));
                        }
                    };
                } else {
                    let newm = cells_model(new_cells@);
                    assert(newm.last() == (key, kept@));
                    assert(newm.drop_last() =~= prefix_m);
                    assert forall|k: CellKey, j: u32|
                        #[trigger] bucket_of(cells_model(new_cells@), k).contains(j) <==> (
                        bucket_of(next, k).contains(j) && j != id) by {
                        if k == key {
                            assert(bucket_of(newm, k) == kept@);
                            assert(bucket_of(next, k) == cur);
                        } else {
                            assert(bucket_of(newm, k) == bucket_of(prefix_m, k));
                            assert(bucket_of(next, k) == bucket_of(
                                cells_model(self.cells@.take(i as int)),
                                k,
                            ));
                        }
                    };
                    assert forall|p: int|
                        0 <= p < new_cells@.len() implies exists|q: int|
                            0 <= q < i + 1 && (#[trigger] new_cells@[p]).0 == self.cells@[q].0 by {
                        if p < new_cells@.len() - 1 {
                            let q = choose|q: int|
                                0 <= q < i && (new_cells@[p]).0 == self.cells@[q].0;
                            assert(0 <= q < i + 1 && (new_cells@[p]).0 == self.cells@[q].0);
                        } else {
                            assert((new_cells@[p]).0 == self.cells@[i as int].0);
                        }
                    };
                    assert forall|p: int, q: int|
                        0 <= p < q < new_cells@.len() implies (#[trigger] new_cells@[p]).0 != (
                        #[trigger] new_cells@[q]).0 by {
                        if q == new_cells@.len() - 1 {
                            let q2 = choose|q2: int|
                                0 <= q2 < i && (new_cells@[p]).0 == self.cells@[q2].0;
                            assert(self.cells@[q2].0 != self.cells@[i as int].0);
                        }
                    };
                }
            }
            i = i + 1;
        }
        proof {
            assert(self.cells@.take(n as int) =~= self.cells@);
        }
        self.cells = new_cells;
    }

    /// Add an id to the bucket of every listed cell, creating buckets as
    /// needed.
    fn add_to_cells(&mut self, id: u32, keys: &Vec<CellKey>)
        requires
            forall|p: int, q: int|
                0 <= p < q < old(self).cells@.len() ==> (#[trigger] old(self).cells@[p]).0 != (
                #[trigger] old(self).cells@[q]).0,
        ensures
            final(self).entries == old(self).entries,
            final(self).cell_size == old(self).cell_size,
            forall|p: int, q: int|
                0 <= p < q < final(self).cells@.len() ==> (#[trigger] final(self).cells@[p]).0 != (
                #[trigger] final(self).cells@[q]).0,
            forall|k: CellKey, j: u32|
                #[trigger] bucket_of(cells_model(final(self).cells@), k).contains(j) <==> (
                bucket_of(cells_model(old(self).cells@), k).contains(j) || (j == id
                    && keys@.contains(k))),
    {
        let nk = keys.len();
        let mut ki: usize = 0;
        proof {
            assert(keys@.take(0) =~= Seq::<CellKey>::empty());
        }
        while ki < nk
            invariant
                nk == keys@.len(),
                ki <= nk,
                self.entries == old(self).entries,
                self.cell_size == old(self).cell_size,
                forall|p: int, q: int|
                    0 <= p < q < self.cells@.len() ==> (#[trigger] self.cells@[p]).0 != (
                    #[trigger] self.cells@[q]).0,
                forall|k: CellKey, j: u32|
                    #[trigger] bucket_of(cells_model(self.cells@), k).contains(j) <==> (bucket_of(
                        cells_model(old(self).cells@),
                        k,
                    ).contains(j) || (j == id && keys@.take(ki as int).contains(k))),
            decreases nk - ki,
        {
            let key = keys[ki];
            let ghost beforem = cells_model(self.cells@);
            // Find the bucket for this key.
            let n = self.cells.len();
            let mut found: Option<usize> = None;
            let mut ci: usize = 0;
            while ci < n && found.is_none()
                invariant
                    n == self.cells@.len(),
                    ci <= n,
                    found matches Some(f) ==> f < n && self.cells@[f as int].0 == key,
                    found is None ==> forall|p: int| 0 <= p < ci ==> (#[trigger] self.cells@[p]).0
                        != key,
                decreases n - ci, (if found is None { 1int } else { 0int }),
            {
                if self.cells[ci].0 == key {
                    found = Some(ci);
                } else {
                    ci = ci + 1;
                }
            }
            match found {
                Some(f) => {
                    let (k0, mut ids0) = self.cells.remove(f);
                    let ghost midm = cells_model(self.cells@);
                    let ghost ids_before = ids0@;
                    ids0.push(id);
                    self.cells.push((k0, ids0));
                    proof {
                        assert(midm =~= beforem.remove(f as int));
                        let nowm = cells_model(self.cells@);
                        assert(nowm.last() == (key, ids_before.push(id)));
                        assert(nowm.drop_last() =~= midm);
                        assert(bucket_of(beforem, key) == ids_before) by {
                            lemma_bucket_at(beforem, f as int);
                        };
                        assert forall|k: CellKey, j: u32|
                            #[trigger] bucket_of(cells_model(self.cells@), k).contains(j) <==> (
                            bucket_of(beforem, k).contains(j) || (j == id && k == key)) by {
                            lemma_bucket_remove(beforem, f as int, k);
                            if k == key {
                                lemma_push_contains(ids_before, id, j);
                            }
                        };
                        assert forall|p: int, q: int|
                            0 <= p < q < self.cells@.len() implies (#[trigger] self.cells@[p]).0
                            != (#[trigger] self.cells@[q]).0 by {
                            assert(forall|p: int|
                                0 <= p < self.cells@.len() - 1 ==> (#[trigger] self.cells@[p]).0
                                    == (if p < f {
                                    beforem[p].0
                                } else {
                                    beforem[p + 1].0
                                }));
                            assert(self.cells@[self.cells@.len() - 1].0 == key);
                            assert(beforem[f as int].0 == key);
                        };
                    }
                },
                None => {
                    let mut fresh: Vec<u32> = Vec::new();
                    fresh.push(id);
                    self.cells.push((key, fresh));
                    proof {
                        let nowm = cells_model(self.cells@);
                        assert(nowm.last().0 == key);
                        assert(nowm.last().1 =~= Seq::<u32>::empty().push(id));
                        assert(nowm.drop_last() =~= beforem);
                        assert(forall|p: int|
                            0 <= p < beforem.len() ==> (#[trigger] beforem[p]).0 != key);
                        lemma_bucket_absent(beforem, key);
                        assert forall|k: CellKey, j: u32|
                            #[trigger] bucket_of(cells_model(self.cells@), k).contains(j) <==> (
                            bucket_of(beforem, k).contains(j) || (j == id && k == key)) by {
                            if k == key {
                                lemma_push_contains(Seq::<u32>::empty(), id, j);
                            }
                        };
                        assert forall|p: int, q: int|
                            0 <= p < q < self.cells@.len() implies (#[trigger] self.cells@[p]).0
                            != (#[trigger] self.cells@[q]).0 by {
                            if q == self.cells@.len() - 1 {
                                assert(self.cells@[p].0 == beforem[p].0);
                            }
                        };
                    }
                },
            }
            proof {
                assert forall|k: CellKey|
                    keys@.take(ki + 1).contains(k) <==> (keys@.take(ki as int).contains(k) || k
                        == key) by {
                    lemma_push_contains(keys@.take(ki as int), key, k);
                    assert(keys@.take(ki + 1) =~= keys@.take(ki as int).push(key));
                };
            }
            ki = ki + 1;
        }
        proof {
            assert(keys@.take(nk as int) =~= keys@);
        }
    }

    /// Remove an element from the index; unknown ids are a no-op.
    pub fn remove(&mut self, id: u32)
        requires
            old(self).wf(),
        ensures
            final(self).wf(),
            final(self).spec_cell_size() == old(self).spec_cell_size(),
            final(self).entry(id) is None,
            forall|j: u32| j != id ==> final(self).entry(j) == old(self).entry(j),
            final(self).spec_count() == old(self).spec_count() - (if old(self).entry(id) is Some {
                1int
            } else {
                0int
            }),
    {
        let ghost entries0 = self.entries@;
        self.remove_from_cells(id);
        let n = self.entries.len();
        let mut idx: Option<usize> = None;
        let mut ci: usize = 0;
        while ci < n && idx.is_none()
            invariant
                n == self.entries@.len(),
                ci <= n,
                idx matches Some(f) ==> f < n && self.entries@[f as int].id == id,
                idx is None ==> forall|p: int| 0 <= p < ci ==> (#[trigger] self.entries@[p]).id
                    != id,
            decreases n - ci, (if idx is None {
                1int
            } else {
                0int
            }),
        {
            if self.entries[ci].id == id {
                idx = Some(ci);
            } else {
                ci = ci + 1;
            }
        }
        let ghost mid_entries = self.entries@;
        proof {
            assert(mid_entries == entries0);
        }
        match idx {
            Some(f) => {
                self.entries.remove(f);
                proof {
                    lemma_entry_at(entries0, f as int);
                    assert forall|j: u32| #[trigger]
                        entry_of(self.entries@, j) == (if j == id {
                            None::<SpatialEntry>
                        } else {
                            entry_of(entries0, j)
                        }) by {
                        lemma_entry_remove(entries0, f as int, j);
                    };
                    assert forall|p: int, q: int|
                        0 <= p < q < self.entries@.len() implies (#[trigger] self.entries@[p]).id
                        != (#[trigger] self.entries@[q]).id by {
                        assert(forall|p: int|
                            0 <= p < self.entries@.len() ==> (#[trigger] self.entries@[p]) == (
                            if p < f {
                                entries0[p]
                            } else {
                                entries0[p + 1]
                            }));
                    };
                }
            },
            None => {
                proof {
                    lemma_entry_absent(entries0, id);
                }
            },
        }
    }

    /// Insert or update an element's bounds; a non-positive width or
    /// height removes the element instead.
    pub fn upsert(&mut self, id: u32, x: i64, y: i64, w: i64, h: i64)
        requires
            old(self).wf(),
            -SCENE_LIMIT <= x <= SCENE_LIMIT,
            -SCENE_LIMIT <= y <= SCENE_LIMIT,
            -SCENE_LIMIT <= w <= SCENE_LIMIT,
            -SCENE_LIMIT <= h <= SCENE_LIMIT,
        ensures
            final(self).wf(),
            final(self).spec_cell_size() == old(self).spec_cell_size(),
            final(self).entry(id) == (if w <= 0 || h <= 0 {
                None::<SpatialEntry>
            } else {
                Some(SpatialEntry { id, x, y, w, h })
            }),
            forall|j: u32| j != id ==> final(self).entry(j) == old(self).entry(j),
            final(self).spec_count() == old(self).spec_count() - (if old(self).entry(id)
                is Some {
                1int
            } else {
                0int
            }) + (if w > 0 && h > 0 {
                1int
            } else {
                0int
            }),
    {
        if w <= 0 || h <= 0 {
            self.remove(id);
            return ;
        }
        self.remove(id);
        let keys = self.compute_cells(x, y, w, h);
        self.add_to_cells(id, &keys);
        let ghost mid_entries = self.entries@;
        let e = SpatialEntry { id, x, y, w, h };
        self.entries.push(e);
        proof {
            assert(self.entries@.drop_last() =~= mid_entries);
            assert(self.entries@.last() == e);
            assert forall|p: int, q: int|
                0 <= p < q < self.entries@.len() implies (#[trigger] self.entries@[p]).id != (
                #[trigger] self.entries@[q]).id by {
                if q == self.entries@.len() - 1 {
                    lemma_entry_at(mid_entries, p);
                }
            };
            assert forall|j: u32| j != id implies #[trigger] entry_of(self.entries@, j)
                == entry_of(mid_entries, j) by {};
        }
    }

    /// Collect the distinct ids whose boxes intersect the query
    /// rectangle; a degenerate rectangle matches nothing.
    fn query_rect_internal(&self, left: i64, top: i64, right: i64, bottom: i64) -> (r: Vec<u32>)
        requires
            self.wf(),
            -SCENE_LIMIT <= left <= SCENE_LIMIT,
            -SCENE_LIMIT <= top <= SCENE_LIMIT,
            -SCENE_LIMIT <= right <= SCENE_LIMIT,
            -SCENE_LIMIT <= bottom <= SCENE_LIMIT,
        ensures
            forall|p: int, q: int| 0 <= p < q < r@.len() ==> r@[p] != r@[q],
            forall|j: u32|
                #[trigger] r@.contains(j) <==> (right - left > 0 && bottom - top > 0 && (
                self.entry(j) matches Some(e) && spec_intersects(
                    e.x as int,
                    e.y as int,
                    e.w as int,
                    e.h as int,
                    left as int,
                    top as int,
                    (right - left) as int,
                    (bottom - top) as int,
                ))),
    {
        let mut result: Vec<u32> = Vec::new();
        if right - left <= 0 || bottom - top <= 0 {
            return result;
        }
        let qw = right - left;
        let qh = bottom - top;
        let cs = self.cell_size;
        let min_cx = floor_div(left, cs);
        let max_cx = floor_div(right, cs);
        let min_cy = floor_div(top, cs);
        let max_cy = floor_div(bottom, cs);
        let n = self.cells.len();
        let mut ci: usize = 0;
        while ci < n
            invariant
                self.wf(),
                n == self.cells@.len(),
                ci <= n,
                0 < qw == right - left,
                0 < qh == bottom - top,
                -SCENE_LIMIT <= left <= SCENE_LIMIT,
                -SCENE_LIMIT <= top <= SCENE_LIMIT,
                -SCENE_LIMIT <= right <= SCENE_LIMIT,
                -SCENE_LIMIT <= bottom <= SCENE_LIMIT,
                cs == self.spec_cell_size(),
                min_cx == left as int / cs as int,
                max_cx == right as int / cs as int,
                min_cy == top as int / cs as int,
                max_cy == bottom as int / cs as int,
                forall|p: int, q: int| 0 <= p < q < result@.len() ==> result@[p] != result@[q],
                forall|j: u32|
                    #[trigger] result@.contains(j) ==> (self.entry(j) matches Some(e)
                        && spec_intersects(
                        e.x as int,
                        e.y as int,
                        e.w as int,
                        e.h as int,
                        left as int,
                        top as int,
                        qw as int,
                        qh as int,
                    )),
                forall|p: int, ti: int|
                    0 <= p < ci && 0 <= ti < self.cells@[p].1@.len() && min_cx
                        <= self.cells@[p].0.cx <= max_cx && min_cy <= self.cells@[p].0.cy
                        <= max_cy ==> {
                        let j = #[trigger] self.cells@[p].1@[ti];
                        (self.entry(j) matches Some(e) && spec_intersects(
                            e.x as int,
                            e.y as int,
                            e.w as int,
                            e.h as int,
                            left as int,
                            top as int,
                            qw as int,
                            qh as int,
                        )) ==> result@.contains(j)
                    },
            decreases n - ci,
        {
            let key = self.cells[ci].0;
            if min_cx <= key.cx && key.cx <= max_cx && min_cy <= key.cy && key.cy <= max_cy {
                let bl = self.cells[ci].1.len();
                let mut t: usize = 0;
                while t < bl
                    invariant
                        self.wf(),
                        n == self.cells@.len(),
                        ci < n,
                        bl == self.cells@[ci as int].1@.len(),
                        t <= bl,
                        key == self.cells@[ci as int].0,
                        min_cx <= key.cx <= max_cx,
                        min_cy <= key.cy <= max_cy,
                        0 < qw == right - left,
                        0 < qh == bottom - top,
                        qw <= 2 * SCENE_LIMIT,
                        qh <= 2 * SCENE_LIMIT,
                        -SCENE_LIMIT <= left <= SCENE_LIMIT,
                        -SCENE_LIMIT <= top <= SCENE_LIMIT,
                        forall|p: int, q: int|
                            0 <= p < q < result@.len() ==> result@[p] != result@[q],
                        forall|j: u32|
                            #[trigger] result@.contains(j) ==> (self.entry(j) matches Some(e)
                                && spec_intersects(
                                e.x as int,
                                e.y as int,
                                e.w as int,
                                e.h as int,
                                left as int,
                                top as int,
                                qw as int,
                                qh as int,
                            )),
                        forall|p: int, ti: int|
                            0 <= p < ci && 0 <= ti < self.cells@[p].1@.len() && min_cx
                                <= self.cells@[p].0.cx <= max_cx && min_cy <= self.cells@[
                            p].0.cy <= max_cy ==> {
                                let j = #[trigger] self.cells@[p].1@[ti];
                                (self.entry(j) matches Some(e) && spec_intersects(
                                    e.x as int,
                                    e.y as int,
                                    e.w as int,
                                    e.h as int,
                                    left as int,
                                    top as int,
                                    qw as int,
                                    qh as int,
                                )) ==> result@.contains(j)
                            },
                        forall|ti: int|
                            0 <= ti < t ==> {
                                let j = #[trigger] self.cells@[ci as int].1@[ti];
                                (self.entry(j) matches Some(e) && spec_intersects(
                                    e.x as int,
                                    e.y as int,
                                    e.w as int,
                                    e.h as int,
                                    left as int,
                                    top as int,
                                    qw as int,
                                    qh as int,
                                )) ==> result@.contains(j)
                            },
                    decreases bl - t,
                {
                    let j = self.cells[ci].1[t];
                    if !vec_contains(&result, j) {
                        match self.find_entry(j) {
                            Some(e) => {
                                proof {
                                    let ei = lemma_entry_of_member(self.entries@, j);
                                }
                                if aabb_intersects(e.x, e.y, e.w, e.h, left, top, qw, qh) {
                                    let ghost before = result@;
                                    result.push(j);
                                    proof {
                                        assert forall|j2: u32|
                                            result@.contains(j2) <==> (before.contains(j2) || j2
                                                == j) by {
                                            lemma_push_contains(before, j, j2);
                                        };
                                        assert forall|j2: u32|
                                            #[trigger] result@.contains(j2) implies (self.entry(
                                                j2,
                                            ) matches Some(e2) && spec_intersects(
                                                e2.x as int,
                                                e2.y as int,
                                                e2.w as int,
                                                e2.h as int,
                                                left as int,
                                                top as int,
                                                qw as int,
                                                qh as int,
                                            )) by {
                                            if before.contains(j2) {
                                            } else {
                                                assert(j2 == j);
                                                assert(self.entry(j2) == Some(e));
                                            }
                                        };
                                    }
                                }
                            },
                            None => {},
                        }
                    }
                    t = t + 1;
                }
            }
            ci = ci + 1;
        }
        proof {
            assert forall|j: u32|
                (self.entry(j) matches Some(e) && spec_intersects(
                    e.x as int,
                    e.y as int,
                    e.w as int,
                    e.h as int,
                    left as int,
                    top as int,
                    qw as int,
                    qh as int,
                )) implies #[trigger] result@.contains(j) by {
                let e = self.entry(j)->Some_0;
                let ei = lemma_entry_of_member(self.entries@, j);
                let csn = cs as int;
                let mx: int = if e.x as int >= left as int {
                    e.x as int
                } else {
                    left as int
                };
                let my: int = if e.y as int >= top as int {
                    e.y as int
                } else {
                    top as int
                };
                vstd::arithmetic::div_mod::lemma_div_is_ordered(e.x as int, mx, csn);
                vstd::arithmetic::div_mod::lemma_div_is_ordered(mx, e.x as int + e.w as int, csn);
                vstd::arithmetic::div_mod::lemma_div_is_ordered(left as int, mx, csn);
                vstd::arithmetic::div_mod::lemma_div_is_ordered(mx, right as int, csn);
                vstd::arithmetic::div_mod::lemma_div_is_ordered(e.y as int, my, csn);
                vstd::arithmetic::div_mod::lemma_div_is_ordered(my, e.y as int + e.h as int, csn);
                vstd::arithmetic::div_mod::lemma_div_is_ordered(top as int, my, csn);
                vstd::arithmetic::div_mod::lemma_div_is_ordered(my, bottom as int, csn);
                let a = mx / csn;
                let b = my / csn;
                let k = CellKey { cx: a as i64, cy: b as i64 };
                lemma_div_range(mx, csn);
                lemma_div_range(my, csn);
                assert(covers(
                    e.x as int,
                    e.y as int,
                    e.w as int,
                    e.h as int,
                    csn,
                    k.cx as int,
                    k.cy as int,
                ));
                assert(bucket_of(cells_model(self.cells@), k).contains(j));
                let pi = lemma_bucket_member(cells_model(self.cells@), k, j);
                assert(self.cells@[pi].0 == k);
                assert(min_cx <= k.cx <= max_cx && min_cy <= k.cy <= max_cy);
            };
        }
        result
    }

    /// Query the elements whose boxes contain a point (edges included).
    pub fn query_point(&self, px: i64, py: i64) -> (r: Vec<u32>)
        requires
            self.wf(),
            -SCENE_LIMIT <= px <= SCENE_LIMIT,
            -SCENE_LIMIT <= py <= SCENE_LIMIT,
        ensures
            forall|p: int, q: int| 0 <= p < q < r@.len() ==> r@[p] != r@[q],
            forall|j: u32|
                #[trigger] r@.contains(j) <==> (self.entry(j) matches Some(e)
                    && spec_contains_point(
                    e.x as int,
                    e.y as int,
                    e.w as int,
                    e.h as int,
                    px as int,
                    py as int,
                )),
    {
        let cs = self.cell_size;
        let cx = floor_div(px, cs);
        let cy = floor_div(py, cs);
        let key = CellKey { cx, cy };
        let mut result: Vec<u32> = Vec::new();
        let n = self.cells.len();
        let mut found: Option<usize> = None;
        let mut ci: usize = 0;
        while ci < n && found.is_none()
            invariant
                n == self.cells@.len(),
                ci <= n,
                found matches Some(f) ==> f < n && self.cells@[f as int].0 == key,
                found is None ==> forall|p: int| 0 <= p < ci ==> (#[trigger] self.cells@[p]).0
                    != key,
            decreases n - ci, (if found is None {
                1int
            } else {
                0int
            }),
        {
            if self.cells[ci].0 == key {
                found = Some(ci);
            } else {
                ci = ci + 1;
            }
        }
        if let Some(f) = found {
            proof {
                lemma_bucket_at(cells_model(self.cells@), f as int);
            }
            let bl = self.cells[f].1.len();
            let mut t: usize = 0;
            while t < bl
                invariant
                    self.wf(),
                    n == self.cells@.len(),
                    f < n,
                    self.cells@[f as int].0 == key,
                    bucket_of(cells_model(self.cells@), key) == self.cells@[f as int].1@,
                    bl == self.cells@[f as int].1@.len(),
                    t <= bl,
                    -SCENE_LIMIT <= px <= SCENE_LIMIT,
                    -SCENE_LIMIT <= py <= SCENE_LIMIT,
                    forall|p: int, q: int| 0 <= p < q < result@.len() ==> result@[p] != result@[q],
                    forall|j: u32|
                        #[trigger] result@.contains(j) ==> (self.entry(j) matches Some(e)
                            && spec_contains_point(
                            e.x as int,
                            e.y as int,
                            e.w as int,
                            e.h as int,
                            px as int,
                            py as int,
                        )),
                    forall|ti: int|
                        0 <= ti < t ==> {
                            let j = #[trigger] self.cells@[f as int].1@[ti];
                            (self.entry(j) matches Some(e) && spec_contains_point(
                                e.x as int,
                                e.y as int,
                                e.w as int,
                                e.h as int,
                                px as int,
                                py as int,
                            )) ==> result@.contains(j)
                        },
                decreases bl - t,
            {
                let j = self.cells[f].1[t];
                if !vec_contains(&result, j) {
                    match self.find_entry(j) {
                        Some(e) => {
                            proof {
                                let ei = lemma_entry_of_member(self.entries@, j);
                            }
                            if aabb_contains_point(e.x, e.y, e.w, e.h, px, py) {
                                let ghost before = result@;
                                result.push(j);
                                proof {
                                    assert forall|j2: u32|
                                        result@.contains(j2) <==> (before.contains(j2) || j2
                                            == j) by {
                                        lemma_push_contains(before, j, j2);
                                    };
                                    assert forall|j2: u32|
                                        #[trigger] result@.contains(j2) implies (self.entry(
                                            j2,
                                        ) matches Some(e2) && spec_contains_point(
                                            e2.x as int,
                                            e2.y as int,
                                            e2.w as int,
                                            e2.h as int,
                                            px as int,
                                            py as int,
                                        )) by {
                                        if before.contains(j2) {
                                        } else {
                                            assert(j2 == j);
                                            assert(self.entry(j2) == Some(e));
                                        }
                                    };
                                }
                            }
                        },
                        None => {},
                    }
                }
                t = t + 1;
            }
        } else {
            proof {
                lemma_bucket_absent(cells_model(self.cells@), key);
            }
        }
        proof {
            assert forall|j: u32|
                (self.entry(j) matches Some(e) && spec_contains_point(
                    e.x as int,
                    e.y as int,
                    e.w as int,
                    e.h as int,
                    px as int,
                    py as int,
                )) implies #[trigger] result@.contains(j) by {
                let e = self.entry(j)->Some_0;
                let ei = lemma_entry_of_member(self.entries@, j);
                let csn = cs as int;
                vstd::arithmetic::div_mod::lemma_div_is_ordered(e.x as int, px as int, csn);
                vstd::arithmetic::div_mod::lemma_div_is_ordered(
                    px as int,
                    e.x as int + e.w as int,
                    csn,
                );
                vstd::arithmetic::div_mod::lemma_div_is_ordered(e.y as int, py as int, csn);
                vstd::arithmetic::div_mod::lemma_div_is_ordered(
                    py as int,
                    e.y as int + e.h as int,
                    csn,
                );
                assert(covers(
                    e.x as int,
                    e.y as int,
                    e.w as int,
                    e.h as int,
                    csn,
                    cx as int,
                    cy as int,
                ));
                assert(bucket_of(cells_model(self.cells@), key).contains(j));
                let pi = lemma_bucket_member(cells_model(self.cells@), key, j);
                let ti = choose|ti: int|
                    0 <= ti < self.cells@[pi].1@.len() && self.cells@[pi].1@[ti] == j;
            };
        }
        result
    }

    /// Apply a flat batch of upsert records, five values per record:
    /// id, then the box. Later records for the same id win.
    pub fn batch_upsert(&mut self, data: &[i64])
        requires
            old(self).wf(),
            forall|k: int| 0 <= k < data@.len() ==> -SCENE_LIMIT <= #[trigger] data@[k] <= SCENE_LIMIT,
        ensures
            final(self).wf(),
            final(self).spec_cell_size() == old(self).spec_cell_size(),
            forall|j: u32|
                #[trigger] final(self).entry(j) == batch_entry(
                    old(self).entry(j),
                    data@,
                    data@.len() as int / 5,
                    j,
                ),
            final(self).spec_count() == batch_count(*old(self), data@, data@.len() as int / 5),
    {
        let count = data.len() / 5;
        proof {
            vstd::arithmetic::div_mod::lemma_fundamental_div_mod(data@.len() as int, 5);
        }
        let mut i: usize = 0;
        let mut off: usize = 0;
        while i < count
            invariant
                self.wf(),
                count == data@.len() as int / 5,
                5 * count <= data@.len(),
                i <= count,
                off == 5 * i,
                self.spec_cell_size() == old(self).spec_cell_size(),
                forall|k: int|
                    0 <= k < data@.len() ==> -SCENE_LIMIT <= #[trigger] data@[k] <= SCENE_LIMIT,
                forall|j: u32|
                    #[trigger] self.entry(j) == batch_entry(old(self).entry(j), data@, i as int, j),
                self.spec_count() == batch_count(*old(self), data@, i as int),
            decreases count - i,
        {
            proof {
                vstd::arithmetic::div_mod::lemma_fundamental_div_mod(data@.len() as int, 5);
                assert(5 * (i as int) + 4 < data@.len()) by (nonlinear_arith)
                    requires
                        0 <= i < count,
                        5 * (count as int) <= data@.len(),
                ;
            }
            let id = #[verifier::truncate] (data[off] as u32);
            let x = data[off + 1];
            let y = data[off + 2];
            let w = data[off + 3];
            let h = data[off + 4];
            let ghost pre = *self;
            self.upsert(id, x, y, w, h);
            proof {
                assert forall|j: u32|
                    #[trigger] self.entry(j) == batch_entry(
                        old(self).entry(j),
                        data@,
                        i + 1,
                        j,
                    ) by {
                    assert(batch_entry(old(self).entry(j), data@, i + 1, j) == (if data@[5 * (
                    i as int)] as u32 == j {
                        if data@[5 * (i as int) + 3] <= 0 || data@[5 * (i as int) + 4] <= 0 {
                            None::<SpatialEntry>
                        } else {
                            Some(
                                SpatialEntry {
                                    id: j,
                                    x: data@[5 * (i as int) + 1],
                                    y: data@[5 * (i as int) + 2],
                                    w: data@[5 * (i as int) + 3],
                                    h: data@[5 * (i as int) + 4],
                                },
                            )
                        }
                    } else {
                        batch_entry(old(self).entry(j), data@, i as int, j)
                    }));
                };
            }
            i = i + 1;
            off = off + 5;
        }
        proof {
            vstd::arithmetic::div_mod::lemma_fundamental_div_mod(data@.len() as int, 5);
        }
    }

    /// Query elements intersecting a viewport rectangle.
    pub fn query_viewport(&self, left: i64, top: i64, right: i64, bottom: i64) -> (r: Vec<u32>)
        requires
            self.wf(),
            -SCENE_LIMIT <= left <= SCENE_LIMIT,
            -SCENE_LIMIT <= top <= SCENE_LIMIT,
            -SCENE_LIMIT <= right <= SCENE_LIMIT,
            -SCENE_LIMIT <= bottom <= SCENE_LIMIT,
        ensures
            forall|p: int, q: int| 0 <= p < q < r@.len() ==> r@[p] != r@[q],
            forall|j: u32|
                #[trigger] r@.contains(j) <==> (right - left > 0 && bottom - top > 0 && (
                self.entry(j) matches Some(e) && spec_intersects(
                    e.x as int,
                    e.y as int,
                    e.w as int,
                    e.h as int,
                    left as int,
                    top as int,
                    (right - left) as int,
                    (bottom - top) as int,
                ))),
    {
        self.query_rect_internal(left, top, right, bottom)
    }

    /// Query elements intersecting a lasso rectangle.
    pub fn query_rect(&self, left: i64, top: i64, right: i64, bottom: i64) -> (r: Vec<u32>)
        requires
            self.wf(),
            -SCENE_LIMIT <= left <= SCENE_LIMIT,
            -SCENE_LIMIT <= top <= SCENE_LIMIT,
            -SCENE_LIMIT <= right <= SCENE_LIMIT,
            -SCENE_LIMIT <= bottom <= SCENE_LIMIT,
        ensures
            forall|p: int, q: int| 0 <= p < q < r@.len() ==> r@[p] != r@[q],
            forall|j: u32|
                #[trigger] r@.contains(j) <==> (right - left > 0 && bottom - top > 0 && (
                self.entry(j) matches Some(e) && spec_intersects(
                    e.x as int,
                    e.y as int,
                    e.w as int,
                    e.h as int,
                    left as int,
                    top as int,
                    (right - left) as int,
                    (bottom - top) as int,
                ))),
    {
        self.query_rect_internal(left, top, right, bottom)
    }
}


/// Whether a vector holds a value.
pub fn vec_contains(v: &Vec<u32>, x: u32) -> (r: bool)
    ensures
        r == v@.contains(x),
{
    let n = v.len();
    let mut i: usize = 0;
    while i < n
        invariant
            n == v@.len(),
            i <= n,
            forall|p: int| 0 <= p < i ==> v@[p] != x,
        decreases n - i,
    {
        if v[i] == x {
            return true;
        }
        i = i + 1;
    }
    proof {
        if v@.contains(x) {
            let p = choose|p: int| 0 <= p < v@.len() && v@[p] == x;
            assert(false);
        }
    }
    false
}

/// A member of a bucket points back at the bucket's position.
proof fn lemma_bucket_member(cells: Seq<(CellKey, Seq<u32>)>, k: CellKey, j: u32) -> (i: int)
    requires
        bucket_of(cells, k).contains(j),
    ensures
        0 <= i < cells.len(),
        cells[i].0 == k,
        cells[i].1.contains(j),
    decreases cells.len(),
{
    if cells.last().0 == k {
        assert(cells.last() == cells[cells.len() - 1]);
        cells.len() - 1
    } else {
        let i = lemma_bucket_member(cells.drop_last(), k, j);
        assert(cells.drop_last()[i] == cells[i]);
        i
    }
}

/// A resolved entry is one of the stored entries.
proof fn lemma_entry_of_member(s: Seq<SpatialEntry>, j: u32) -> (i: int)
    requires
        entry_of(s, j) is Some,
    ensures
        0 <= i < s.len(),
        s[i] == entry_of(s, j)->Some_0,
        s[i].id == j,
    decreases s.len(),
{
    if s.last().id == j {
        assert(s.last() == s[s.len() - 1]);
        s.len() - 1
    } else {
        let i = lemma_entry_of_member(s.drop_last(), j);
        assert(s.drop_last()[i] == s[i]);
        i
    }
}

/// Floor division by a positive divisor keeps a bounded value bounded.
proof fn lemma_div_range(v: int, d: int)
    requires
        -2 * SCENE_LIMIT <= v <= 2 * SCENE_LIMIT,
        1 <= d,
    ensures
        -2 * SCENE_LIMIT <= v / d <= 2 * SCENE_LIMIT,
{
    if v >= 0 {
        vstd::arithmetic::div_mod::lemma_div_pos_is_pos(v, d);
        vstd::arithmetic::div_mod::lemma_div_is_ordered_by_denominator(v, 1, d);
        vstd::arithmetic::div_mod::lemma_div_basics(v);
    } else {
        vstd::arithmetic::div_mod::lemma_fundamental_div_mod(v, d);
        assert(v / d >= v) by (nonlinear_arith)
            requires
                v == d * (v / d) + (v % d),
                0 <= v % d < d,
                1 <= d,
                v < 0,
        ;
        vstd::arithmetic::div_mod::lemma_div_is_ordered(v, 0, d);
        vstd::arithmetic::div_mod::lemma_div_of0(d);
    }
}

/// Pushing an element extends membership by exactly that element.
proof fn lemma_push_contains<A>(s: Seq<A>, e: A, k: A)
    ensures
        s.push(e).contains(k) <==> (s.contains(k) || k == e),
{
    if s.push(e).contains(k) {
        let i = choose|i: int| 0 <= i < s.push(e).len() && s.push(e)[i] == k;
        if i < s.len() {
            assert(s[i] == k);
        } else {
            assert(k == e);
        }
    }
    if s.contains(k) {
        let i = choose|i: int| 0 <= i < s.len() && s[i] == k;
        assert(s.push(e)[i] == k);
    }
    if k == e {
        assert(s.push(e)[s.len() as int] == k);
    }
}

/// Floor division of a scene coordinate by the (positive) cell size.
pub fn floor_div(a: i64, d: i64) -> (r: i64)
    requires
        0 < d,
        -2 * SCENE_LIMIT <= a <= 2 * SCENE_LIMIT,
        d <= SCENE_LIMIT,
    ensures
        r == a as int / d as int,
        -2 * SCENE_LIMIT - 1 <= r <= 2 * SCENE_LIMIT,
{
    if a >= 0 {
        proof {
            vstd::arithmetic::div_mod::lemma_div_is_ordered_by_denominator(a as int, 1, d as int);
            vstd::arithmetic::div_mod::lemma_div_basics(a as int);
            vstd::arithmetic::div_mod::lemma_div_pos_is_pos(a as int, d as int);
        }
        a / d
    } else {
        let na = -a;
        let q = na / d;
        let r = na % d;
        proof {
            vstd::arithmetic::div_mod::lemma_div_is_ordered_by_denominator(na as int, 1, d as int);
            vstd::arithmetic::div_mod::lemma_div_basics(na as int);
            vstd::arithmetic::div_mod::lemma_div_pos_is_pos(na as int, d as int);
            vstd::arithmetic::div_mod::lemma_fundamental_div_mod(na as int, d as int);
            if r == 0 {
                assert(a as int == (-(q as int)) * (d as int) + 0) by (nonlinear_arith)
                    requires
                        na as int == (d as int) * (q as int) + 0,
                        na as int == -(a as int),
                ;
                vstd::arithmetic::div_mod::lemma_fundamental_div_mod_converse_div(
                    a as int,
                    d as int,
                    -(q as int),
                    0,
                );
            } else {
                assert(a as int == (-(q as int) - 1) * (d as int) + ((d as int) - (r as int)))
                    by (nonlinear_arith)
                    requires
                        na as int == (d as int) * (q as int) + (r as int),
                        na as int == -(a as int),
                ;
                vstd::arithmetic::div_mod::lemma_fundamental_div_mod_converse_div(
                    a as int,
                    d as int,
                    -(q as int) - 1,
                    (d as int) - (r as int),
                );
            }
        }
        if r == 0 {
            -q
        } else {
            -q - 1
        }
    }
}

/// Axis-aligned bounding box intersection test.
pub fn aabb_intersects(
    ax: i64,
    ay: i64,
    aw: i64,
    ah: i64,
    bx: i64,
    by: i64,
    bw: i64,
    bh: i64,
) -> (r: bool)
    requires
        -2 * SCENE_LIMIT <= ax <= 2 * SCENE_LIMIT,
        -2 * SCENE_LIMIT <= ay <= 2 * SCENE_LIMIT,
        -2 * SCENE_LIMIT <= aw <= 2 * SCENE_LIMIT,
        -2 * SCENE_LIMIT <= ah <= 2 * SCENE_LIMIT,
        -2 * SCENE_LIMIT <= bx <= 2 * SCENE_LIMIT,
        -2 * SCENE_LIMIT <= by <= 2 * SCENE_LIMIT,
        -2 * SCENE_LIMIT <= bw <= 2 * SCENE_LIMIT,
        -2 * SCENE_LIMIT <= bh <= 2 * SCENE_LIMIT,
    ensures
        r == spec_intersects(
            ax as int,
            ay as int,
            aw as int,
            ah as int,
            bx as int,
            by as int,
            bw as int,
            bh as int,
        ),
{
    ax < bx + bw && ax + aw > bx && ay < by + bh && ay + ah > by
}

/// Point-in-box test.
pub fn aabb_contains_point(x: i64, y: i64, w: i64, h: i64, px: i64, py: i64) -> (r: bool)
    requires
        -2 * SCENE_LIMIT <= x <= 2 * SCENE_LIMIT,
        -2 * SCENE_LIMIT <= y <= 2 * SCENE_LIMIT,
        -2 * SCENE_LIMIT <= w <= 2 * SCENE_LIMIT,
        -2 * SCENE_LIMIT <= h <= 2 * SCENE_LIMIT,
        -2 * SCENE_LIMIT <= px <= 2 * SCENE_LIMIT,
        -2 * SCENE_LIMIT <= py <= 2 * SCENE_LIMIT,
    ensures
        r == spec_contains_point(x as int, y as int, w as int, h as int, px as int, py as int),
{
    px >= x && px <= x + w && py >= y && py <= y + h
}

} // verus!
