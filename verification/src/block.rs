//! Block-formatting layout: margin collapsing, vertical stacking and
//! inline-block line boxes, on integer pixel coordinates.
//!
//! The engine makes a single forward pass over pre-resolved children,
//! keeping a Y cursor for block flow and an X cursor plus a pending line
//! box for inline-block runs. Adjacent vertical margins collapse by the
//! CSS rule; a child that establishes its own block formatting context
//! keeps its top margin out of the collapse. The pass is specified by a
//! functional step model ([`spec_step`]) that the imperative loop is
//! proved to follow.

use vstd::prelude::*;

verus! {

/// Bound on every input coordinate, so that the pass stays far from
/// integer overflow.
pub const COORD_LIMIT: i64 = 1_000_000_000;

/// Bound on the number of children of one pass.
pub const CHILD_LIMIT: usize = 100_000;

/// How a child participates in block flow.
#[derive(Clone, Copy, Debug, PartialEq, Eq, Structural)]
pub enum BlockDisplay {
    Block,
    InlineBlock,
    EmptyBlock,
}

/// Vertical alignment of an inline-block within its line box.
#[derive(Clone, Copy, Debug, PartialEq, Eq, Structural)]
pub enum VerticalAlign {
    Baseline,
    Top,
    Middle,
    Bottom,
}

/// One child's resolved inputs: sizes (`None` meaning automatic), the
/// four margins, whether it forms its own block formatting context,
/// combined padding-plus-border extents, size limits, fallback content
/// size, and the inline-flow fields.
#[derive(Clone, Copy, Debug, PartialEq, Eq, Structural)]
pub struct BlockChild {
    pub display: BlockDisplay,
    pub width: Option<i64>,
    pub height: Option<i64>,
    pub margin_top: i64,
    pub margin_right: i64,
    pub margin_bottom: i64,
    pub margin_left: i64,
    pub creates_bfc: bool,
    pub pad_border_v: i64,
    pub pad_border_h: i64,
    pub min_width: Option<i64>,
    pub max_width: Option<i64>,
    pub min_height: Option<i64>,
    pub max_height: Option<i64>,
    pub content_width: i64,
    pub content_height: i64,
    pub vertical_align: VerticalAlign,
    pub baseline: i64,
    pub line_height: Option<i64>,
}

/// One child's computed box.
#[derive(Clone, Copy, Debug, PartialEq, Eq, Structural)]
pub struct ChildBox {
    pub x: i64,
    pub y: i64,
    pub width: i64,
    pub height: i64,
}

/// The whole pass's output: one box per child, plus the margins that may
/// collapse through the parent's top and bottom edges.
#[derive(Clone, Debug, PartialEq)]
pub struct BlockLayoutResult {
    pub boxes: Vec<ChildBox>,
    pub first_margin_top: i64,
    pub last_margin_bottom: i64,
}

/// Specification value of a box.
pub struct BoxModel {
    pub x: int,
    pub y: int,
    pub w: int,
    pub h: int,
}

/// Specification value of a pending inline-block item.
pub struct LineItemModel {
    pub out_index: int,
    pub x: int,
    pub width: int,
    pub height: int,
    pub margin_top: int,
    pub margin_bottom: int,
    pub valign: VerticalAlign,
    pub baseline: int,
    pub line_height: Option<int>,
}

/// Specification state of the pass.
pub struct FlowModel {
    pub out: Seq<BoxModel>,
    pub y: int,
    pub x: int,
    pub prev_mb: int,
    pub first_mt: int,
    pub last_mb: int,
    pub is_first: bool,
    pub line: Seq<LineItemModel>,
}

/// The collapsed value of two adjacent vertical margins, per the CSS rule:
/// both non-negative takes the larger, both negative takes the smaller
/// (most negative), mixed signs add.
pub open spec fn spec_collapse(a: int, b: int) -> int {
    if a >= 0 && b >= 0 {
        if a >= b {
            a
        } else {
            b
        }
    } else if a < 0 && b < 0 {
        if a <= b {
            a
        } else {
            b
        }
    } else {
        a + b
    }
}

/// Collapse two adjacent vertical margins. The sum in the mixed-sign
/// case cannot overflow, so every pair of margins is accepted.
pub fn collapse_margins(a: i64, b: i64) -> (r: i64)
    ensures
        r == spec_collapse(a as int, b as int),
{
    if a >= 0 && b >= 0 {
        if a >= b {
            a
        } else {
            b
        }
    } else if a < 0 && b < 0 {
        if a <= b {
            a
        } else {
            b
        }
    } else {
        a + b
    }
}

/// Clamp a size: an explicit maximum lowers the value, then an explicit
/// minimum raises it, so the minimum wins when the two bounds conflict.
pub open spec fn spec_clamp(value: int, mn: Option<i64>, mx: Option<i64>) -> int {
    let lowered = match mx {
        Some(m) => if value <= m {
            value
        } else {
            m as int
        },
        None => value,
    };
    match mn {
        Some(m) => if lowered >= m {
            lowered
        } else {
            m as int
        },
        None => lowered,
    }
}

/// Clamp a size between optional limits; the minimum wins on conflict.
pub fn clamp_size(value: i64, mn: Option<i64>, mx: Option<i64>) -> (r: i64)
    ensures
        r == spec_clamp(value as int, mn, mx),
{
    let mut result = value;
    if let Some(m) = mx {
        if result > m {
            result = m;
        }
    }
    if let Some(m) = mn {
        if result < m {
            result = m;
        }
    }
    result
}

/// Largest of: each item's outer height, and each item's explicit line
/// height plus its vertical margins.
pub open spec fn spec_max_total(items: Seq<LineItemModel>) -> int
    decreases items.len(),
{
    if items.len() == 0 {
        0
    } else {
        let rest = spec_max_total(items.drop_last());
        let it = items.last();
        let total = it.height + it.margin_top + it.margin_bottom;
        let with_lh = match it.line_height {
            Some(lh) => if lh + it.margin_top + it.margin_bottom >= total {
                lh + it.margin_top + it.margin_bottom
            } else {
                total
            },
            None => total,
        };
        if with_lh >= rest {
            with_lh
        } else {
            rest
        }
    }
}

/// Largest distance from a line's top to a baseline-aligned item's
/// baseline.
pub open spec fn spec_max_baseline_top(items: Seq<LineItemModel>) -> int
    decreases items.len(),
{
    if items.len() == 0 {
        0
    } else {
        let rest = spec_max_baseline_top(items.drop_last());
        let it = items.last();
        if it.valign == VerticalAlign::Baseline {
            let v = it.margin_top + it.baseline;
            if v >= rest {
                v
            } else {
                rest
            }
        } else {
            rest
        }
    }
}

/// Largest extent below the shared baseline among baseline-aligned items.
pub open spec fn spec_max_below(items: Seq<LineItemModel>) -> int
    decreases items.len(),
{
    if items.len() == 0 {
        0
    } else {
        let rest = spec_max_below(items.drop_last());
        let it = items.last();
        if it.valign == VerticalAlign::Baseline {
            let v = it.height - it.baseline + it.margin_bottom;
            if v >= rest {
                v
            } else {
                rest
            }
        } else {
            rest
        }
    }
}

/// Height of a line box: the largest item extent, also bounded below by
/// the baseline-aligned items' shared ascent plus descent.
pub open spec fn spec_line_height(items: Seq<LineItemModel>) -> int {
    let mt = spec_max_total(items);
    let bh = spec_max_baseline_top(items) + spec_max_below(items);
    if mt >= bh {
        mt
    } else {
        bh
    }
}

/// Vertical offset of one item within its line box.
pub open spec fn spec_item_y(
    it: LineItemModel,
    start_y: int,
    line_h: int,
    line_baseline: int,
) -> int {
    match it.valign {
        VerticalAlign::Top => start_y + it.margin_top,
        VerticalAlign::Bottom => start_y + line_h - it.height - it.margin_bottom,
        VerticalAlign::Middle => start_y + (line_h - it.height - it.margin_top - it.margin_bottom)
            / 2 + it.margin_top,
        VerticalAlign::Baseline => start_y + line_baseline - it.baseline,
    }
}

/// Write the positions of flushed line items into the output boxes.
pub open spec fn spec_flush_items(
    out: Seq<BoxModel>,
    items: Seq<LineItemModel>,
    start_y: int,
    line_h: int,
    line_baseline: int,
) -> Seq<BoxModel>
    decreases items.len(),
{
    if items.len() == 0 {
        out
    } else {
        let prev = spec_flush_items(out, items.drop_last(), start_y, line_h, line_baseline);
        let it = items.last();
        if 0 <= it.out_index < prev.len() {
            prev.update(
                it.out_index,
                BoxModel {
                    x: it.x,
                    y: spec_item_y(it, start_y, line_h, line_baseline),
                    w: prev[it.out_index].w,
                    h: prev[it.out_index].h,
                },
            )
        } else {
            prev
        }
    }
}

/// Flush a pending line at `start_y`.
pub open spec fn spec_flush(out: Seq<BoxModel>, items: Seq<LineItemModel>, start_y: int) -> Seq<
    BoxModel,
> {
    spec_flush_items(out, items, start_y, spec_line_height(items), spec_max_baseline_top(items))
}

/// One step of the pass: lay out child `c` at output slot `idx`.
pub open spec fn spec_step(
    st: FlowModel,
    c: BlockChild,
    avail: int,
    can_collapse_top: bool,
    idx: int,
) -> FlowModel {
    if c.display == BlockDisplay::InlineBlock {
        let cw = spec_clamp(
            match c.width {
                Some(w) => w as int,
                None => c.content_width as int,
            },
            c.min_width,
            c.max_width,
        );
        let ch = spec_clamp(
            match c.height {
                Some(h) => h as int,
                None => c.content_height as int,
            },
            c.min_height,
            c.max_height,
        );
        let child_w = cw + c.pad_border_h;
        let child_h = ch + c.pad_border_v;
        let total_w = child_w + c.margin_left + c.margin_right;
        let wrapped = st.x + total_w > avail && st.x > 0;
        let out1 = if wrapped {
            spec_flush(st.out, st.line, st.y)
        } else {
            st.out
        };
        let y1 = if wrapped {
            st.y + spec_line_height(st.line)
        } else {
            st.y
        };
        let x1 = if wrapped {
            0
        } else {
            st.x
        };
        let line1 = if wrapped {
            Seq::empty()
        } else {
            st.line
        };
        let item = LineItemModel {
            out_index: idx,
            x: x1 + c.margin_left,
            width: child_w,
            height: child_h,
            margin_top: c.margin_top as int,
            margin_bottom: c.margin_bottom as int,
            valign: c.vertical_align,
            baseline: c.baseline as int,
            line_height: match c.line_height {
                Some(lh) => Some(lh as int),
                None => None,
            },
        };
        let out2 = if 0 <= idx < out1.len() {
            out1.update(
                idx,
                BoxModel { x: out1[idx].x, y: out1[idx].y, w: child_w, h: child_h },
            )
        } else {
            out1
        };
        FlowModel {
            out: out2,
            y: y1,
            x: x1 + total_w,
            prev_mb: 0,
            first_mt: st.first_mt,
            last_mb: st.last_mb,
            is_first: false,
            line: line1.push(item),
        }
    } else if c.display == BlockDisplay::EmptyBlock {
        let pending = st.line.len() > 0;
        let out1 = if pending {
            spec_flush(st.out, st.line, st.y)
        } else {
            st.out
        };
        let y1 = if pending {
            st.y + spec_line_height(st.line)
        } else {
            st.y
        };
        let collapsed_self = spec_collapse(c.margin_top as int, c.margin_bottom as int);
        let final_margin = spec_collapse(st.prev_mb, collapsed_self);
        let out2 = if 0 <= idx < out1.len() {
            out1.update(
                idx,
                BoxModel {
                    x: c.margin_left as int,
                    y: y1 + final_margin,
                    w: avail - c.margin_left - c.margin_right,
                    h: 0,
                },
            )
        } else {
            out1
        };
        let first_mt1 = if st.is_first && can_collapse_top {
            spec_collapse(st.first_mt, collapsed_self)
        } else {
            st.first_mt
        };
        FlowModel {
            out: out2,
            y: y1,
            x: if pending {
                0
            } else {
                st.x
            },
            prev_mb: collapsed_self,
            first_mt: first_mt1,
            last_mb: collapsed_self,
            is_first: st.is_first,
            line: if pending {
                Seq::empty()
            } else {
                st.line
            },
        }
    } else {
        let pending = st.line.len() > 0;
        let out1 = if pending {
            spec_flush(st.out, st.line, st.y)
        } else {
            st.out
        };
        let y1 = if pending {
            st.y + spec_line_height(st.line)
        } else {
            st.y
        };
        let first_mt1 = if st.is_first && can_collapse_top && !c.creates_bfc {
            c.margin_top as int
        } else {
            st.first_mt
        };
        let prev_mb1 = if st.is_first && can_collapse_top && !c.creates_bfc {
            0
        } else {
            st.prev_mb
        };
        let collapsed_top = if c.creates_bfc {
            prev_mb1 + c.margin_top
        } else {
            spec_collapse(prev_mb1, c.margin_top as int)
        };
        let y2 = y1 + collapsed_top;
        let cw = spec_clamp(
            match c.width {
                Some(w) => w as int,
                None => avail - c.margin_left - c.margin_right,
            },
            c.min_width,
            c.max_width,
        );
        let ch = spec_clamp(
            match c.height {
                Some(h) => h as int,
                None => c.content_height as int,
            },
            c.min_height,
            c.max_height,
        );
        let child_w = match c.width {
            Some(_) => cw + c.pad_border_h,
            None => cw,
        };
        let child_h = ch + c.pad_border_v;
        let out2 = if 0 <= idx < out1.len() {
            out1.update(
                idx,
                BoxModel { x: c.margin_left as int, y: y2, w: child_w, h: child_h },
            )
        } else {
            out1
        };
        FlowModel {
            out: out2,
            y: y2 + child_h,
            x: if pending {
                0
            } else {
                st.x
            },
            prev_mb: c.margin_bottom as int,
            first_mt: first_mt1,
            last_mb: if c.creates_bfc {
                0
            } else {
                c.margin_bottom as int
            },
            is_first: false,
            line: if pending {
                Seq::empty()
            } else {
                st.line
            },
        }
    }
}

/// A sequence of boxes whose every coordinate is zero.
pub open spec fn zero_boxes(n: int) -> Seq<BoxModel> {
    Seq::new(n as nat, |i: int| BoxModel { x: 0, y: 0, w: 0, h: 0 })
}

/// The pass state after the first `i` children.
pub open spec fn spec_flow_upto(
    children: Seq<BlockChild>,
    avail: int,
    can_collapse_top: bool,
    prev0: int,
    i: int,
) -> FlowModel
    decreases i,
{
    if i <= 0 {
        FlowModel {
            out: zero_boxes(children.len() as int),
            y: 0,
            x: 0,
            prev_mb: prev0,
            first_mt: 0,
            last_mb: 0,
            is_first: true,
            line: Seq::empty(),
        }
    } else {
        spec_step(
            spec_flow_upto(children, avail, can_collapse_top, prev0, i - 1),
            children[i - 1],
            avail,
            can_collapse_top,
            i - 1,
        )
    }
}

/// The final output boxes: the pass over all children, with any pending
/// line flushed at the final Y cursor.
pub open spec fn spec_final_out(
    children: Seq<BlockChild>,
    avail: int,
    can_collapse_top: bool,
    prev0: int,
) -> Seq<BoxModel> {
    let st = spec_flow_upto(children, avail, can_collapse_top, prev0, children.len() as int);
    if st.line.len() > 0 {
        spec_flush(st.out, st.line, st.y)
    } else {
        st.out
    }
}

/// The specification values of the output boxes.
pub open spec fn boxes_model(v: Seq<ChildBox>) -> Seq<BoxModel> {
    v.map(
        |k: int, b: ChildBox| BoxModel { x: b.x as int, y: b.y as int, w: b.width as int, h: b.height as int },
    )
}

/// The specification values of pending line items.
pub open spec fn line_model(v: Seq<LineItem>) -> Seq<LineItemModel> {
    v.map(
        |k: int, it: LineItem|
            LineItemModel {
                out_index: it.out_index as int,
                x: it.x as int,
                width: it.width as int,
                height: it.height as int,
                margin_top: it.margin_top as int,
                margin_bottom: it.margin_bottom as int,
                valign: it.vertical_align,
                baseline: it.baseline as int,
                line_height: match it.line_height {
                    Some(lh) => Some(lh as int),
                    None => None,
                },
            },
    )
}

/// An inline-block item pending in the current line box.
#[derive(Clone, Copy, Debug, PartialEq, Eq, Structural)]
pub struct LineItem {
    pub out_index: usize,
    pub x: i64,
    pub width: i64,
    pub height: i64,
    pub margin_top: i64,
    pub margin_bottom: i64,
    pub vertical_align: VerticalAlign,
    pub baseline: i64,
    pub line_height: Option<i64>,
}

/// Every input field of the child is within the coordinate bound.
pub open spec fn child_ok(c: BlockChild) -> bool {
    &&& (c.width matches Some(w) ==> -COORD_LIMIT <= w <= COORD_LIMIT)
    &&& (c.height matches Some(h) ==> -COORD_LIMIT <= h <= COORD_LIMIT)
    &&& -COORD_LIMIT <= c.margin_top <= COORD_LIMIT
    &&& -COORD_LIMIT <= c.margin_right <= COORD_LIMIT
    &&& -COORD_LIMIT <= c.margin_bottom <= COORD_LIMIT
    &&& -COORD_LIMIT <= c.margin_left <= COORD_LIMIT
    &&& -COORD_LIMIT <= c.pad_border_v <= COORD_LIMIT
    &&& -COORD_LIMIT <= c.pad_border_h <= COORD_LIMIT
    &&& (c.min_width matches Some(v) ==> -COORD_LIMIT <= v <= COORD_LIMIT)
    &&& (c.max_width matches Some(v) ==> -COORD_LIMIT <= v <= COORD_LIMIT)
    &&& (c.min_height matches Some(v) ==> -COORD_LIMIT <= v <= COORD_LIMIT)
    &&& (c.max_height matches Some(v) ==> -COORD_LIMIT <= v <= COORD_LIMIT)
    &&& -COORD_LIMIT <= c.content_width <= COORD_LIMIT
    &&& -COORD_LIMIT <= c.content_height <= COORD_LIMIT
    &&& -COORD_LIMIT <= c.baseline <= COORD_LIMIT
    &&& (c.line_height matches Some(lh) ==> -COORD_LIMIT <= lh <= COORD_LIMIT)
}

/// Every pending line item is within bounds and points at a valid slot.
pub open spec fn line_items_ok(items: Seq<LineItemModel>, n_out: int) -> bool {
    forall|k: int|
        0 <= k < items.len() ==> {
            let it = #[trigger] items[k];
            &&& 0 <= it.out_index < n_out
            &&& -5 * COORD_LIMIT <= it.width <= 5 * COORD_LIMIT
            &&& -5 * COORD_LIMIT <= it.height <= 5 * COORD_LIMIT
            &&& -COORD_LIMIT <= it.margin_top <= COORD_LIMIT
            &&& -COORD_LIMIT <= it.margin_bottom <= COORD_LIMIT
            &&& -COORD_LIMIT <= it.baseline <= COORD_LIMIT
            &&& (it.line_height matches Some(lh) ==> -COORD_LIMIT <= lh <= COORD_LIMIT)
        }
}

/// The maxima over a line are bounded when the items are.
proof fn lemma_line_bounds(items: Seq<LineItemModel>, n_out: int)
    requires
        line_items_ok(items, n_out),
    ensures
        0 <= spec_max_total(items) <= 7 * COORD_LIMIT,
        0 <= spec_max_baseline_top(items) <= 2 * COORD_LIMIT,
        0 <= spec_max_below(items) <= 7 * COORD_LIMIT,
        0 <= spec_line_height(items) <= 9 * COORD_LIMIT,
    decreases items.len(),
{
    if items.len() > 0 {
        assert(line_items_ok(items.drop_last(), n_out));
        lemma_line_bounds(items.drop_last(), n_out);
        assert(items[items.len() - 1] == items.last());
    }
}

/// The line height covers each item's outer height.
proof fn lemma_max_total_ge(items: Seq<LineItemModel>, k: int)
    requires
        0 <= k < items.len(),
    ensures
        spec_max_total(items) >= items[k].height + items[k].margin_top + items[k].margin_bottom,
    decreases items.len(),
{
    if k < items.len() - 1 {
        lemma_max_total_ge(items.drop_last(), k);
    } else {
        assert(items[k] == items.last());
    }
}

/// Compute the height of a line box.
pub fn calculate_line_box_height(items: &Vec<LineItem>, Ghost(n_out): Ghost<int>) -> (r: i64)
    requires
        line_items_ok(line_model(items@), n_out),
    ensures
        r == spec_line_height(line_model(items@)),
        0 <= r <= 9 * COORD_LIMIT,
{
    let ghost m = line_model(items@);
    let n = items.len();
    let mut max_total: i64 = 0;
    let mut max_baseline_top: i64 = 0;
    let mut i: usize = 0;
    proof {
        assert(m.take(0) =~= Seq::<LineItemModel>::empty());
    }
    while i < n
        invariant
            n == items@.len() == m.len(),
            m == line_model(items@),
            line_items_ok(m, n_out),
            i <= n,
            max_total == spec_max_total(m.take(i as int)),
            max_baseline_top == spec_max_baseline_top(m.take(i as int)),
            0 <= max_total <= 7 * COORD_LIMIT,
            0 <= max_baseline_top <= 2 * COORD_LIMIT,
        decreases n - i,
    {
        proof {
            assert(m.take(i + 1).drop_last() =~= m.take(i as int));
            assert(m.take(i + 1).last() == m[i as int]);
        }
        let it = items[i];
        let total = it.height + it.margin_top + it.margin_bottom;
        if total > max_total {
            max_total = total;
        }
        if let Some(lh) = it.line_height {
            let with_lh = lh + it.margin_top + it.margin_bottom;
            if with_lh > max_total {
                max_total = with_lh;
            }
        }
        if it.vertical_align == VerticalAlign::Baseline {
            let bt = it.margin_top + it.baseline;
            if bt > max_baseline_top {
                max_baseline_top = bt;
            }
        }
        i = i + 1;
    }
    let mut max_below: i64 = 0;
    let mut j: usize = 0;
    proof {
        assert(m.take(n as int) =~= m);
    }
    while j < n
        invariant
            n == items@.len() == m.len(),
            m == line_model(items@),
            line_items_ok(m, n_out),
            j <= n,
            max_below == spec_max_below(m.take(j as int)),
            0 <= max_below <= 7 * COORD_LIMIT,
        decreases n - j,
    {
        proof {
            assert(m.take(j + 1).drop_last() =~= m.take(j as int));
            assert(m.take(j + 1).last() == m[j as int]);
        }
        let it = items[j];
        if it.vertical_align == VerticalAlign::Baseline {
            let below = it.height - it.baseline + it.margin_bottom;
            if below > max_below {
                max_below = below;
            }
        }
        j = j + 1;
    }
    proof {
        assert(m.take(n as int) =~= m);
    }
    let baseline_height = max_baseline_top + max_below;
    if max_total >= baseline_height {
        max_total
    } else {
        baseline_height
    }
}

/// Compute the shared baseline position of a line box.
fn line_box_baseline(items: &Vec<LineItem>, Ghost(n_out): Ghost<int>) -> (r: i64)
    requires
        line_items_ok(line_model(items@), n_out),
    ensures
        r == spec_max_baseline_top(line_model(items@)),
        0 <= r <= 2 * COORD_LIMIT,
{
    let ghost m = line_model(items@);
    let n = items.len();
    let mut max_baseline_top: i64 = 0;
    let mut i: usize = 0;
    proof {
        assert(m.take(0) =~= Seq::<LineItemModel>::empty());
    }
    while i < n
        invariant
            n == items@.len() == m.len(),
            m == line_model(items@),
            line_items_ok(m, n_out),
            i <= n,
            max_baseline_top == spec_max_baseline_top(m.take(i as int)),
            0 <= max_baseline_top <= 2 * COORD_LIMIT,
        decreases n - i,
    {
        proof {
            assert(m.take(i + 1).drop_last() =~= m.take(i as int));
            assert(m.take(i + 1).last() == m[i as int]);
        }
        let it = items[i];
        if it.vertical_align == VerticalAlign::Baseline {
            let bt = it.margin_top + it.baseline;
            if bt > max_baseline_top {
                max_baseline_top = bt;
            }
        }
        i = i + 1;
    }
    proof {
        assert(m.take(n as int) =~= m);
    }
    max_baseline_top
}

/// Flush line box items: write each item's position into the output.
fn flush_line_box(items: &Vec<LineItem>, start_y: i64, out: &mut Vec<ChildBox>)
    requires
        line_items_ok(line_model(items@), old(out)@.len() as int),
        -4_000_000_000_000_000 <= start_y <= 4_000_000_000_000_000,
    ensures
        final(out)@.len() == old(out)@.len(),
        boxes_model(final(out)@) == spec_flush(
            boxes_model(old(out)@),
            line_model(items@),
            start_y as int,
        ),
{
    let ghost m = line_model(items@);
    let ghost out0 = boxes_model(old(out)@);
    let line_box_height = calculate_line_box_height(items, Ghost(out@.len() as int));
    let line_baseline = line_box_baseline(items, Ghost(out@.len() as int));
    let n = items.len();
    let mut i: usize = 0;
    proof {
        assert(m.take(0) =~= Seq::<LineItemModel>::empty());
    }
    while i < n
        invariant
            n == items@.len() == m.len(),
            m == line_model(items@),
            line_items_ok(m, out@.len() as int),
            i <= n,
            out@.len() == old(out)@.len(),
            out0 == boxes_model(old(out)@),
            -4_000_000_000_000_000 <= start_y <= 4_000_000_000_000_000,
            line_box_height == spec_line_height(m),
            0 <= line_box_height <= 9 * COORD_LIMIT,
            line_baseline == spec_max_baseline_top(m),
            0 <= line_baseline <= 2 * COORD_LIMIT,
            boxes_model(out@) == spec_flush_items(
                out0,
                m.take(i as int),
                start_y as int,
                line_box_height as int,
                line_baseline as int,
            ),
        decreases n - i,
    {
        proof {
            assert(m.take(i + 1).drop_last() =~= m.take(i as int));
            assert(m.take(i + 1).last() == m[i as int]);
        }
        let it = items[i];
        let final_y: i64 = match it.vertical_align {
            VerticalAlign::Top => start_y + it.margin_top,
            VerticalAlign::Bottom => start_y + line_box_height - it.height - it.margin_bottom,
            VerticalAlign::Middle => {
                let gap = line_box_height - it.height - it.margin_top - it.margin_bottom;
                proof {
                    lemma_max_total_ge(m, i as int);
                }
                start_y + gap / 2 + it.margin_top
            },
            VerticalAlign::Baseline => start_y + line_baseline - it.baseline,
        };
        let idx = it.out_index;
        let prev = out[idx];
        let ghost before = boxes_model(out@);
        out.set(idx, ChildBox { x: it.x, y: final_y, width: prev.width, height: prev.height });
        proof {
            assert(boxes_model(out@) =~= before.update(
                idx as int,
                BoxModel {
                    x: it.x as int,
                    y: final_y as int,
                    w: before[idx as int].w,
                    h: before[idx as int].h,
                },
            ));
        }
        i = i + 1;
    }
    proof {
        assert(m.take(n as int) =~= m);
    }
}

/// Lay out pre-resolved children in one forward pass.
///
/// Returns one box per child plus the two margins that may collapse
/// through the parent's edges: the first child's upward-collapsible top
/// margin and the last child's downward-collapsible bottom margin (zero
/// when the corresponding `can_collapse_*` flag is off). The available
/// height is accepted for interface symmetry; block flow does not
/// consult it.
#[verifier::rlimit(100)]
pub fn block_layout(
    children: &Vec<BlockChild>,
    available_width: i64,
    available_height: i64,
    can_collapse_top: bool,
    can_collapse_bottom: bool,
    prev_sibling_margin_bottom: i64,
) -> (r: BlockLayoutResult)
    requires
        children@.len() <= CHILD_LIMIT,
        -COORD_LIMIT <= available_width <= COORD_LIMIT,
        -COORD_LIMIT <= prev_sibling_margin_bottom <= COORD_LIMIT,
        forall|k: int| 0 <= k < children@.len() ==> child_ok(#[trigger] children@[k]),
    ensures
        r.boxes@.len() == children@.len(),
        boxes_model(r.boxes@) == spec_final_out(
            children@,
            available_width as int,
            can_collapse_top,
            prev_sibling_margin_bottom as int,
        ),
        ({
            let st = spec_flow_upto(
                children@,
                available_width as int,
                can_collapse_top,
                prev_sibling_margin_bottom as int,
                children@.len() as int,
            );
            &&& r.first_margin_top == (if can_collapse_top {
                st.first_mt
            } else {
                0
            })
            &&& r.last_margin_bottom == (if can_collapse_bottom {
                st.last_mb
            } else {
                0
            })
        }),
{
    let _ = available_height;
    let ghost cs = children@;
    let ghost aw = available_width as int;
    let ghost prev0 = prev_sibling_margin_bottom as int;
    let n = children.len();
    let mut boxes: Vec<ChildBox> = Vec::new();
    let mut z: usize = 0;
    while z < n
        invariant
            z <= n,
            boxes@.len() == z,
            forall|k: int|
                0 <= k < z ==> #[trigger] boxes@[k] == (ChildBox { x: 0, y: 0, width: 0, height: 0 }),
        decreases n - z,
    {
        boxes.push(ChildBox { x: 0, y: 0, width: 0, height: 0 });
        z = z + 1;
    }
    proof {
        assert(boxes_model(boxes@) =~= zero_boxes(n as int));
    }
    let mut current_y: i64 = 0;
    let mut current_x: i64 = 0;
    let mut prev_margin_bottom: i64 = prev_sibling_margin_bottom;
    let mut first_child_margin_top: i64 = 0;
    let mut last_child_margin_bottom: i64 = 0;
    let mut is_first_block: bool = true;
    let mut line_items: Vec<LineItem> = Vec::new();
    let mut i: usize = 0;
    proof {
        assert(line_model(line_items@) =~= Seq::<LineItemModel>::empty());
    }
    while i < n
        invariant
            n == cs.len(),
            cs == children@,
            aw == available_width as int,
            prev0 == prev_sibling_margin_bottom as int,
            -COORD_LIMIT <= available_width <= COORD_LIMIT,
            -COORD_LIMIT <= prev_sibling_margin_bottom <= COORD_LIMIT,
            n <= CHILD_LIMIT,
            forall|k: int| 0 <= k < cs.len() ==> child_ok(#[trigger] cs[k]),
            i <= n,
            boxes@.len() == n,
            ({
                let st = spec_flow_upto(cs, aw, can_collapse_top, prev0, i as int);
                &&& boxes_model(boxes@) == st.out
                &&& current_y as int == st.y
                &&& current_x as int == st.x
                &&& prev_margin_bottom as int == st.prev_mb
                &&& first_child_margin_top as int == st.first_mt
                &&& last_child_margin_bottom as int == st.last_mb
                &&& is_first_block == st.is_first
                &&& line_model(line_items@) == st.line
            }),
            line_items_ok(line_model(line_items@), n as int),
            -40_000_000_000 * i <= current_y <= 40_000_000_000 * i,
            -10_000_000_000 * i <= current_x <= 10_000_000_000 * i,
            -COORD_LIMIT <= prev_margin_bottom <= COORD_LIMIT,
            -COORD_LIMIT <= first_child_margin_top <= COORD_LIMIT,
            -COORD_LIMIT <= last_child_margin_bottom <= COORD_LIMIT,
        decreases n - i,
    {
        let ghost st = spec_flow_upto(cs, aw, can_collapse_top, prev0, i as int);
        let ghost st_next = spec_flow_upto(cs, aw, can_collapse_top, prev0, i + 1);
        proof {
            assert(st_next == spec_step(st, cs[i as int], aw, can_collapse_top, i as int));
            assert(child_ok(cs[i as int]));
        }
        let c = children[i];
        match c.display {
            BlockDisplay::InlineBlock => {
                let cw = clamp_size(
                    match c.width {
                        Some(w) => w,
                        None => c.content_width,
                    },
                    c.min_width,
                    c.max_width,
                );
                let ch = clamp_size(
                    match c.height {
                        Some(h) => h,
                        None => c.content_height,
                    },
                    c.min_height,
                    c.max_height,
                );
                proof {
                    assert(-COORD_LIMIT <= cw <= COORD_LIMIT);
                    assert(-COORD_LIMIT <= ch <= COORD_LIMIT);
                }
                let child_w = cw + c.pad_border_h;
                let child_h = ch + c.pad_border_v;
                let total_w = child_w + c.margin_left + c.margin_right;
                if current_x + total_w > available_width && current_x > 0 {
                    flush_line_box(&line_items, current_y, &mut boxes);
                    let lbh = calculate_line_box_height(&line_items, Ghost(n as int));
                    current_y = current_y + lbh;
                    current_x = 0;
                    line_items = Vec::new();
                    proof {
                        assert(line_model(line_items@) =~= Seq::<LineItemModel>::empty());
                    }
                }
                let item = LineItem {
                    out_index: i,
                    x: current_x + c.margin_left,
                    width: child_w,
                    height: child_h,
                    margin_top: c.margin_top,
                    margin_bottom: c.margin_bottom,
                    vertical_align: c.vertical_align,
                    baseline: c.baseline,
                    line_height: c.line_height,
                };
                let ghost line_before = line_model(line_items@);
                line_items.push(item);
                proof {
                    assert(line_model(line_items@) =~= line_before.push(
                        line_model(line_items@).last(),
                    ));
                }
                let prevb = boxes[i];
                let ghost before = boxes_model(boxes@);
                boxes.set(i, ChildBox { x: prevb.x, y: prevb.y, width: child_w, height: child_h });
                proof {
                    assert(boxes_model(boxes@) =~= before.update(
                        i as int,
                        BoxModel {
                            x: before[i as int].x,
                            y: before[i as int].y,
                            w: child_w as int,
                            h: child_h as int,
                        },
                    ));
                }
                current_x = current_x + total_w;
                prev_margin_bottom = 0;
                is_first_block = false;
            },
            BlockDisplay::EmptyBlock => {
                if line_items.len() > 0 {
                    let lbh = calculate_line_box_height(&line_items, Ghost(n as int));
                    flush_line_box(&line_items, current_y, &mut boxes);
                    current_y = current_y + lbh;
                    current_x = 0;
                    line_items = Vec::new();
                    proof {
                        assert(line_model(line_items@) =~= Seq::<LineItemModel>::empty());
                    }
                }
                let collapsed_self = collapse_margins(c.margin_top, c.margin_bottom);
                let final_margin = collapse_margins(prev_margin_bottom, collapsed_self);
                let ghost before = boxes_model(boxes@);
                boxes.set(
                    i,
                    ChildBox {
                        x: c.margin_left,
                        y: current_y + final_margin,
                        width: available_width - c.margin_left - c.margin_right,
                        height: 0,
                    },
                );
                proof {
                    assert(boxes_model(boxes@) =~= before.update(
                        i as int,
                        BoxModel {
                            x: c.margin_left as int,
                            y: current_y as int + final_margin as int,
                            w: available_width as int - c.margin_left as int
                                - c.margin_right as int,
                            h: 0,
                        },
                    ));
                }
                if is_first_block && can_collapse_top {
                    first_child_margin_top = collapse_margins(
                        first_child_margin_top,
                        collapsed_self,
                    );
                }
                last_child_margin_bottom = collapsed_self;
                prev_margin_bottom = collapsed_self;
            },
            BlockDisplay::Block => {
                if line_items.len() > 0 {
                    let lbh = calculate_line_box_height(&line_items, Ghost(n as int));
                    flush_line_box(&line_items, current_y, &mut boxes);
                    current_y = current_y + lbh;
                    current_x = 0;
                    line_items = Vec::new();
                    proof {
                        assert(line_model(line_items@) =~= Seq::<LineItemModel>::empty());
                    }
                }
                if is_first_block {
                    if can_collapse_top && !c.creates_bfc {
                        first_child_margin_top = c.margin_top;
                        prev_margin_bottom = 0;
                    }
                    is_first_block = false;
                }
                let collapsed_margin_top = if c.creates_bfc {
                    prev_margin_bottom + c.margin_top
                } else {
                    collapse_margins(prev_margin_bottom, c.margin_top)
                };
                proof {
                    assert(-2 * COORD_LIMIT <= collapsed_margin_top <= 2 * COORD_LIMIT);
                }
                current_y = current_y + collapsed_margin_top;
                let cw = clamp_size(
                    match c.width {
                        Some(w) => w,
                        None => available_width - c.margin_left - c.margin_right,
                    },
                    c.min_width,
                    c.max_width,
                );
                let ch = clamp_size(
                    match c.height {
                        Some(h) => h,
                        None => c.content_height,
                    },
                    c.min_height,
                    c.max_height,
                );
                let child_w = match c.width {
                    Some(_) => cw + c.pad_border_h,
                    None => cw,
                };
                let child_h = ch + c.pad_border_v;
                let ghost before = boxes_model(boxes@);
                boxes.set(
                    i,
                    ChildBox { x: c.margin_left, y: current_y, width: child_w, height: child_h },
                );
                proof {
                    assert(boxes_model(boxes@) =~= before.update(
                        i as int,
                        BoxModel {
                            x: c.margin_left as int,
                            y: current_y as int,
                            w: child_w as int,
                            h: child_h as int,
                        },
                    ));
                }
                current_y = current_y + child_h;
                prev_margin_bottom = c.margin_bottom;
                last_child_margin_bottom = if c.creates_bfc {
                    0
                } else {
                    c.margin_bottom
                };
            },
        }
        i = i + 1;
    }
    if line_items.len() > 0 {
        flush_line_box(&line_items, current_y, &mut boxes);
    }
    if !can_collapse_top {
        first_child_margin_top = 0;
    }
    if !can_collapse_bottom {
        last_child_margin_bottom = 0;
    }
    BlockLayoutResult {
        boxes,
        first_margin_top: first_child_margin_top,
        last_margin_bottom: last_child_margin_bottom,
    }
}

} // verus!
