//! The handle-indexed node arena.
//!
//! The arena owns small, stable integer handles over the external
//! solver's opaque node ids: an indexable table of optional ids plus a
//! stack of freed indices. A freed slot is reused, newest first, by the
//! next allocation, so the handle table's growth is bounded across long
//! editing sessions. A handle is never aliased to two simultaneously
//! live nodes: allocation only fills slots that are empty.

use crate::style::DecodedNode;
use vstd::prelude::*;

verus! {

/// Handle table over external solver node ids.
pub struct NodeArena {
    slots: Vec<Option<u64>>,
    free_list: Vec<usize>,
}

impl NodeArena {
    /// The solver id a handle resolves to, if the handle is live; the
    /// view is the slot table itself, so `count()`'s `live_count(self@)`
    /// and per-handle facts compose.
    pub open spec fn slot(self, h: int) -> Option<u64> {
        if 0 <= h < self@.len() {
            self@[h]
        } else {
            None
        }
    }

    /// The size of the handle table.
    pub open spec fn table_len(self) -> int {
        self@.len() as int
    }

    /// The stack of freed handles awaiting reuse.
    pub closed spec fn frees(self) -> Seq<usize> {
        self.free_list@
    }

    /// Structure invariant: freed handles are distinct, in range, and
    /// point at empty slots; every empty slot is on the free stack.
    pub closed spec fn wf(self) -> bool {
        &&& forall|i: int, j: int|
            0 <= i < j < self.free_list@.len() ==> #[trigger] self.free_list@[i]
                != #[trigger] self.free_list@[j]
        &&& forall|i: int|
            0 <= i < self.free_list@.len() ==> (#[trigger] self.free_list@[i]) < self.slots@.len()
                && self.slots@[self.free_list@[i] as int] is None
        &&& forall|h: int|
            0 <= h < self.slots@.len() && self.slots@[h] is None ==> self.free_list@.contains(
                (h as usize),
            )
    }

    /// An empty arena.
    pub fn new() -> (r: NodeArena)
        ensures
            r.wf(),
            r.table_len() == 0,
            r.frees().len() == 0,
            forall|h: int| r.slot(h) is None,
    {
        NodeArena { slots: Vec::new(), free_list: Vec::new() }
    }

    /// Allocate a handle for a solver id, reusing the most recently
    /// freed slot when one exists.
    pub fn alloc_handle(&mut self, node_id: u64) -> (h: usize)
        requires
            old(self).wf(),
        ensures
            final(self).wf(),
            h == (if old(self).frees().len() > 0 {
                old(self).frees().last() as int
            } else {
                old(self).table_len()
            }),
            final(self).slot(h as int) == Some(node_id),
            forall|h2: int| h2 != h ==> final(self).slot(h2) == old(self).slot(h2),
            final(self).frees() == (if old(self).frees().len() > 0 {
                old(self).frees().drop_last()
            } else {
                old(self).frees()
            }),
            final(self).table_len() == (if old(self).frees().len() > 0 {
                old(self).table_len()
            } else {
                old(self).table_len() + 1
            }),
    {
        let popped = self.free_list.pop();
        match popped {
            Some(idx) => {
                let table_size = self.slots.len();
                self.slots.set(idx, Some(node_id));
                proof {
                    assert(self.slots@.len() == table_size);
                    assert forall|h: int|
                        0 <= h < self.slots@.len() && self.slots@[h] is None implies self
                            .free_list@.contains((h as usize)) by {
                        assert(h != idx);
                        assert((h as usize) as int == h);
                        assert((h as usize) != idx);
                        assert(old(self).free_list@[old(self).free_list@.len() - 1] == idx);
                        assert(old(self).free_list@.contains((h as usize)));
                        let p = choose|p: int|
                            0 <= p < old(self).free_list@.len() && old(self).free_list@[p] == (
                            h as usize);
                        assert(p < old(self).free_list@.len() - 1);
                        assert(self.free_list@[p] == (h as usize));
                    };
                }
                idx
            },
            None => {
                let idx = self.slots.len();
                self.slots.push(Some(node_id));
                proof {
                    assert forall|h: int|
                        0 <= h < self.slots@.len() && self.slots@[h] is None implies self
                            .free_list@.contains((h as usize)) by {
                        assert(h < self.slots@.len() - 1);
                        assert(old(self).slot(h) is None);
                    };
                }
                idx
            },
        }
    }

    /// Resolve a handle to its solver id; freed and never-allocated
    /// handles resolve to nothing.
    pub fn resolve(&self, handle: usize) -> (r: Option<u64>)
        ensures
            r == self.slot(handle as int),
    {
        if handle < self.slots.len() {
            self.slots[handle]
        } else {
            None
        }
    }

    /// Release a handle, returning its solver id and pushing the slot
    /// onto the free stack; a non-live handle is a no-op.
    pub fn release(&mut self, handle: usize) -> (r: Option<u64>)
        requires
            old(self).wf(),
        ensures
            final(self).wf(),
            r == old(self).slot(handle as int),
            final(self).table_len() == old(self).table_len(),
            r is Some ==> {
                &&& final(self).slot(handle as int) is None
                &&& final(self).frees() == old(self).frees().push(handle)
                &&& forall|h2: int| h2 != handle ==> final(self).slot(h2) == old(self).slot(h2)
            },
            r is None ==> *final(self) == *old(self),
    {
        if handle < self.slots.len() {
            let cur = self.slots[handle];
            match cur {
                Some(id) => {
                    self.slots.set(handle, None);
                    proof {
                        assert forall|i: int, j: int|
                            0 <= i < j < self.free_list@.push(handle).len() implies #[trigger] self
                                .free_list@.push(handle)[i] != #[trigger] self.free_list@.push(
                                handle,
                            )[j] by {
                            if j == self.free_list@.len() {
                                assert(old(self).slots@[self.free_list@[i] as int] is None);
                            }
                        };
                    }
                    self.free_list.push(handle);
                    proof {
                        assert forall|h: int|
                            0 <= h < self.slots@.len() && self.slots@[h] is None implies self
                                .free_list@.contains((h as usize)) by {
                            if h == handle {
                                assert(self.free_list@[self.free_list@.len() - 1] == (
                                h as usize));
                            } else {
                                assert(old(self).free_list@.contains((h as usize)));
                                let p = choose|p: int|
                                    0 <= p < old(self).free_list@.len() && old(self).free_list@[p]
                                        == (h as usize);
                                assert(self.free_list@[p] == (h as usize));
                            }
                        };
                    }
                    Some(id)
                },
                None => None,
            }
        } else {
            None
        }
    }

    /// Drop every handle and empty the table.
    pub fn clear(&mut self)
        requires
            old(self).wf(),
        ensures
            final(self).wf(),
            final(self).table_len() == 0,
            final(self).frees().len() == 0,
            forall|h: int| final(self).slot(h) is None,
    {
        self.slots = Vec::new();
        self.free_list = Vec::new();
    }

    /// The number of live handles.
    pub fn count(&self) -> (r: usize)
        requires
            self.wf(),
        ensures
            r == live_count(self@),
    {
        let n = self.slots.len();
        let mut c: usize = 0;
        let mut i: usize = 0;
        proof {
            assert(self.slots@.take(0) =~= Seq::<Option<u64>>::empty());
        }
        while i < n
            invariant
                n == self.slots@.len(),
                i <= n,
                c <= i,
                c == live_count(self.slots@.take(i as int)),
            decreases n - i,
        {
            proof {
                assert(self.slots@.take(i + 1).drop_last() =~= self.slots@.take(i as int));
                assert(self.slots@.take(i + 1).last() == self.slots@[i as int]);
            }
            if self.slots[i].is_some() {
                c = c + 1;
            }
            i = i + 1;
        }
        proof {
            assert(self.slots@.take(n as int) =~= self.slots@);
        }
        c
    }
}

impl View for NodeArena {
    type V = Seq<Option<u64>>;

    closed spec fn view(&self) -> Seq<Option<u64>> {
        self.slots@
    }
}

/// How many slots hold a live id.
pub open spec fn live_count(slots: Seq<Option<u64>>) -> int
    decreases slots.len(),
{
    if slots.len() == 0 {
        0
    } else {
        live_count(slots.drop_last()) + (if slots.last() is Some {
            1int
        } else {
            0int
        })
    }
}

/// A batch is well formed when every child reference points at a
/// strictly earlier node of the same batch.
pub open spec fn spec_batch_children_valid(nodes: Seq<DecodedNode>) -> bool {
    forall|i: int, c: int|
        0 <= i < nodes.len() && 0 <= c < nodes[i].children@.len() ==> (
        #[trigger] nodes[i].children@[c]) < i
}

/// Check that every child reference of a decoded batch points at an
/// earlier node, which batch building requires.
pub fn batch_children_valid(nodes: &Vec<DecodedNode>) -> (r: bool)
    ensures
        r == spec_batch_children_valid(nodes@),
{
    let n = nodes.len();
    let mut i: usize = 0;
    while i < n
        invariant
            n == nodes@.len(),
            i <= n,
            forall|p: int, c: int|
                0 <= p < i && 0 <= c < nodes@[p].children@.len() ==> (
                #[trigger] nodes@[p].children@[c]) < p,
        decreases n - i,
    {
        let cn = nodes[i].children.len();
        let mut c: usize = 0;
        while c < cn
            invariant
                n == nodes@.len(),
                i < n,
                cn == nodes@[i as int].children@.len(),
                c <= cn,
                forall|p: int, c2: int|
                    0 <= p < i && 0 <= c2 < nodes@[p].children@.len() ==> (
                    #[trigger] nodes@[p].children@[c2]) < p,
                forall|c2: int|
                    0 <= c2 < c ==> (#[trigger] nodes@[i as int].children@[c2]) < i,
            decreases cn - c,
        {
            if nodes[i].children[c] >= i {
                return false;
            }
            c = c + 1;
        }
        i = i + 1;
    }
    true
}

} // verus!
