//! The normalized style data model.
//!
//! A [`StyleRecord`] holds every style field an element can carry, with a
//! fixed baseline value for each field that an input source leaves absent.
//! Scalars are fixed-point thousandths (see [`crate::scalar`]).

use vstd::prelude::*;

verus! {

/// How an element generates boxes.
#[derive(Clone, Copy, Debug, PartialEq, Eq, Structural)]
pub enum Display {
    Flex,
    Grid,
    Block,
    NoneDisplay,
}

/// Positioning scheme.
#[derive(Clone, Copy, Debug, PartialEq, Eq, Structural)]
pub enum Position {
    Relative,
    Absolute,
}

/// Overflow handling for one axis.
#[derive(Clone, Copy, Debug, PartialEq, Eq, Structural)]
pub enum Overflow {
    Visible,
    Hidden,
    Clip,
    Scroll,
}

/// Main-axis direction of a flex container.
#[derive(Clone, Copy, Debug, PartialEq, Eq, Structural)]
pub enum FlexDirection {
    Row,
    Column,
    RowReverse,
    ColumnReverse,
}

/// Wrapping behaviour of a flex container.
#[derive(Clone, Copy, Debug, PartialEq, Eq, Structural)]
pub enum FlexWrap {
    NoWrap,
    Wrap,
    WrapReverse,
}

/// Main-axis content distribution.
#[derive(Clone, Copy, Debug, PartialEq, Eq, Structural)]
pub enum JustifyContent {
    Start,
    End,
    Center,
    SpaceBetween,
    SpaceAround,
    SpaceEvenly,
    Stretch,
}

/// Cross-axis alignment of items; also used for `justify-items`.
#[derive(Clone, Copy, Debug, PartialEq, Eq, Structural)]
pub enum AlignItems {
    Start,
    End,
    Center,
    Stretch,
    Baseline,
}

/// Cross-axis content distribution.
#[derive(Clone, Copy, Debug, PartialEq, Eq, Structural)]
pub enum AlignContent {
    Start,
    End,
    Center,
    Stretch,
    SpaceBetween,
    SpaceAround,
    SpaceEvenly,
}

/// Per-item alignment override; also used for `justify-self`. An absent
/// value (`auto`) is represented as `Option::None` around this type.
#[derive(Clone, Copy, Debug, PartialEq, Eq, Structural)]
pub enum AlignSelf {
    Start,
    End,
    Center,
    Stretch,
    Baseline,
}

/// Placement order of auto-placed grid items.
#[derive(Clone, Copy, Debug, PartialEq, Eq, Structural)]
pub enum GridAutoFlow {
    Row,
    Column,
    RowDense,
    ColumnDense,
}

/// A size that may be automatic, a pixel length, or a fraction of the
/// containing size. Scalars are thousandths: `Length(200_000)` is 200 px,
/// `Percent(500)` is one half.
#[derive(Clone, Copy, Debug, PartialEq, Eq, Structural)]
pub enum Dimension {
    Auto,
    Length(i64),
    Percent(i64),
}

/// A margin or inset value: automatic, pixel length, or fraction.
#[derive(Clone, Copy, Debug, PartialEq, Eq, Structural)]
pub enum Lpa {
    Auto,
    Length(i64),
    Percent(i64),
}

/// A padding, border or gap value: pixel length or fraction (never auto).
#[derive(Clone, Copy, Debug, PartialEq, Eq, Structural)]
pub enum Lp {
    Length(i64),
    Percent(i64),
}

/// Placement of a grid item on one axis side: automatic, a signed line
/// index, or a span count.
#[derive(Clone, Copy, Debug, PartialEq, Eq, Structural)]
pub enum GridPlacement {
    Auto,
    Line(i16),
    Span(u16),
}

/// Lower bound half of a `minmax()` track sizing function.
#[derive(Clone, Copy, Debug, PartialEq, Eq, Structural)]
pub enum MinTrack {
    Auto,
    MinContent,
    MaxContent,
    Length(i64),
    Percent(i64),
}

/// Upper bound half of a `minmax()` track sizing function.
#[derive(Clone, Copy, Debug, PartialEq, Eq, Structural)]
pub enum MaxTrack {
    Auto,
    MinContent,
    MaxContent,
    Length(i64),
    Percent(i64),
    Fr(i64),
}

/// A grid track sizing function.
#[derive(Clone, Copy, Debug, PartialEq, Eq, Structural)]
pub enum TrackSizing {
    Auto,
    MinContent,
    MaxContent,
    Length(i64),
    Percent(i64),
    Fr(i64),
    Minmax(MinTrack, MaxTrack),
}

/// The repetition count of a `repeat()` template component.
#[derive(Clone, Copy, Debug, PartialEq, Eq, Structural)]
pub enum RepeatCount {
    AutoFill,
    AutoFit,
    Count(u16),
}

/// One component of a grid template: a single track sizing function or a
/// repetition of an ordered track list.
#[derive(Clone, Debug, PartialEq, Eq)]
pub enum TrackTemplate {
    Single(TrackSizing),
    Repeat(RepeatCount, Vec<TrackSizing>),
}

/// Specification-level value of a [`TrackTemplate`], with the repeated
/// track list as a sequence.
pub enum TrackTemplateSpec {
    Single(TrackSizing),
    Repeat(RepeatCount, Seq<TrackSizing>),
}

impl TrackTemplate {
    /// The specification-level value of this component.
    pub open spec fn model(self) -> TrackTemplateSpec {
        match self {
            TrackTemplate::Single(t) => TrackTemplateSpec::Single(t),
            TrackTemplate::Repeat(c, ts) => TrackTemplateSpec::Repeat(c, ts@),
        }
    }
}

/// The specification-level value of an ordered template component list.
pub open spec fn templates_model(v: Seq<TrackTemplate>) -> Seq<TrackTemplateSpec> {
    v.map(|i: int, t: TrackTemplate| t.model())
}

/// Specification-level value of a [`StyleRecord`]: the same fields, with
/// the track lists as sequences, so that specifications can build and
/// update style values.
pub struct StyleModel {
    pub display: Display,
    pub position: Position,
    pub overflow_x: Overflow,
    pub overflow_y: Overflow,
    pub flex_direction: FlexDirection,
    pub flex_wrap: FlexWrap,
    pub justify_content: Option<JustifyContent>,
    pub justify_items: Option<AlignItems>,
    pub align_items: Option<AlignItems>,
    pub align_content: Option<AlignContent>,
    pub align_self: Option<AlignSelf>,
    pub justify_self: Option<AlignSelf>,
    pub grid_auto_flow: GridAutoFlow,
    pub flex_grow: i64,
    pub flex_shrink: i64,
    pub aspect_ratio: Option<i64>,
    pub width: Dimension,
    pub height: Dimension,
    pub min_width: Dimension,
    pub min_height: Dimension,
    pub max_width: Dimension,
    pub max_height: Dimension,
    pub flex_basis: Dimension,
    pub margin_top: Lpa,
    pub margin_right: Lpa,
    pub margin_bottom: Lpa,
    pub margin_left: Lpa,
    pub inset_top: Lpa,
    pub inset_right: Lpa,
    pub inset_bottom: Lpa,
    pub inset_left: Lpa,
    pub padding_top: Lp,
    pub padding_right: Lp,
    pub padding_bottom: Lp,
    pub padding_left: Lp,
    pub border_top: Lp,
    pub border_right: Lp,
    pub border_bottom: Lp,
    pub border_left: Lp,
    pub column_gap: Lp,
    pub row_gap: Lp,
    pub grid_column_start: GridPlacement,
    pub grid_column_end: GridPlacement,
    pub grid_row_start: GridPlacement,
    pub grid_row_end: GridPlacement,
    pub grid_template_columns: Seq<TrackTemplateSpec>,
    pub grid_template_rows: Seq<TrackTemplateSpec>,
    pub grid_auto_columns: Seq<TrackSizing>,
    pub grid_auto_rows: Seq<TrackSizing>,
}

/// The model whose every field is the baseline value.
pub open spec fn base_model() -> StyleModel {
    StyleModel {
        display: Display::Flex,
        position: Position::Relative,
        overflow_x: Overflow::Visible,
        overflow_y: Overflow::Visible,
        flex_direction: FlexDirection::Row,
        flex_wrap: FlexWrap::NoWrap,
        justify_content: None,
        justify_items: None,
        align_items: None,
        align_content: None,
        align_self: None,
        justify_self: None,
        grid_auto_flow: GridAutoFlow::Row,
        flex_grow: 0,
        flex_shrink: 1000,
        aspect_ratio: None,
        width: Dimension::Auto,
        height: Dimension::Auto,
        min_width: Dimension::Auto,
        min_height: Dimension::Auto,
        max_width: Dimension::Auto,
        max_height: Dimension::Auto,
        flex_basis: Dimension::Auto,
        margin_top: Lpa::Length(0),
        margin_right: Lpa::Length(0),
        margin_bottom: Lpa::Length(0),
        margin_left: Lpa::Length(0),
        inset_top: Lpa::Auto,
        inset_right: Lpa::Auto,
        inset_bottom: Lpa::Auto,
        inset_left: Lpa::Auto,
        padding_top: Lp::Length(0),
        padding_right: Lp::Length(0),
        padding_bottom: Lp::Length(0),
        padding_left: Lp::Length(0),
        border_top: Lp::Length(0),
        border_right: Lp::Length(0),
        border_bottom: Lp::Length(0),
        border_left: Lp::Length(0),
        column_gap: Lp::Length(0),
        row_gap: Lp::Length(0),
        grid_column_start: GridPlacement::Auto,
        grid_column_end: GridPlacement::Auto,
        grid_row_start: GridPlacement::Auto,
        grid_row_end: GridPlacement::Auto,
        grid_template_columns: Seq::empty(),
        grid_template_rows: Seq::empty(),
        grid_auto_columns: Seq::empty(),
        grid_auto_rows: Seq::empty(),
    }
}

/// The normalized style of one element. Fields an input source does not
/// set keep the baseline values given by [`StyleRecord::base`].
#[derive(Clone, Debug, PartialEq)]
pub struct StyleRecord {
    pub display: Display,
    pub position: Position,
    pub overflow_x: Overflow,
    pub overflow_y: Overflow,
    pub flex_direction: FlexDirection,
    pub flex_wrap: FlexWrap,
    pub justify_content: Option<JustifyContent>,
    pub justify_items: Option<AlignItems>,
    pub align_items: Option<AlignItems>,
    pub align_content: Option<AlignContent>,
    pub align_self: Option<AlignSelf>,
    pub justify_self: Option<AlignSelf>,
    pub grid_auto_flow: GridAutoFlow,
    pub flex_grow: i64,
    pub flex_shrink: i64,
    pub aspect_ratio: Option<i64>,
    pub width: Dimension,
    pub height: Dimension,
    pub min_width: Dimension,
    pub min_height: Dimension,
    pub max_width: Dimension,
    pub max_height: Dimension,
    pub flex_basis: Dimension,
    pub margin_top: Lpa,
    pub margin_right: Lpa,
    pub margin_bottom: Lpa,
    pub margin_left: Lpa,
    pub inset_top: Lpa,
    pub inset_right: Lpa,
    pub inset_bottom: Lpa,
    pub inset_left: Lpa,
    pub padding_top: Lp,
    pub padding_right: Lp,
    pub padding_bottom: Lp,
    pub padding_left: Lp,
    pub border_top: Lp,
    pub border_right: Lp,
    pub border_bottom: Lp,
    pub border_left: Lp,
    pub column_gap: Lp,
    pub row_gap: Lp,
    pub grid_column_start: GridPlacement,
    pub grid_column_end: GridPlacement,
    pub grid_row_start: GridPlacement,
    pub grid_row_end: GridPlacement,
    pub grid_template_columns: Vec<TrackTemplate>,
    pub grid_template_rows: Vec<TrackTemplate>,
    pub grid_auto_columns: Vec<TrackSizing>,
    pub grid_auto_rows: Vec<TrackSizing>,
}

impl StyleRecord {
    /// The specification-level value of this record.
    pub open spec fn model(self) -> StyleModel {
        StyleModel {
            display: self.display,
            position: self.position,
            overflow_x: self.overflow_x,
            overflow_y: self.overflow_y,
            flex_direction: self.flex_direction,
            flex_wrap: self.flex_wrap,
            justify_content: self.justify_content,
            justify_items: self.justify_items,
            align_items: self.align_items,
            align_content: self.align_content,
            align_self: self.align_self,
            justify_self: self.justify_self,
            grid_auto_flow: self.grid_auto_flow,
            flex_grow: self.flex_grow,
            flex_shrink: self.flex_shrink,
            aspect_ratio: self.aspect_ratio,
            width: self.width,
            height: self.height,
            min_width: self.min_width,
            min_height: self.min_height,
            max_width: self.max_width,
            max_height: self.max_height,
            flex_basis: self.flex_basis,
            margin_top: self.margin_top,
            margin_right: self.margin_right,
            margin_bottom: self.margin_bottom,
            margin_left: self.margin_left,
            inset_top: self.inset_top,
            inset_right: self.inset_right,
            inset_bottom: self.inset_bottom,
            inset_left: self.inset_left,
            padding_top: self.padding_top,
            padding_right: self.padding_right,
            padding_bottom: self.padding_bottom,
            padding_left: self.padding_left,
            border_top: self.border_top,
            border_right: self.border_right,
            border_bottom: self.border_bottom,
            border_left: self.border_left,
            column_gap: self.column_gap,
            row_gap: self.row_gap,
            grid_column_start: self.grid_column_start,
            grid_column_end: self.grid_column_end,
            grid_row_start: self.grid_row_start,
            grid_row_end: self.grid_row_end,
            grid_template_columns: templates_model(self.grid_template_columns@),
            grid_template_rows: templates_model(self.grid_template_rows@),
            grid_auto_columns: self.grid_auto_columns@,
            grid_auto_rows: self.grid_auto_rows@,
        }
    }

    /// True when every field holds its baseline value: the value an element
    /// has before any style source sets a field.
    pub open spec fn is_base(self) -> bool {
        &&& self.display == Display::Flex
        &&& self.position == Position::Relative
        &&& self.overflow_x == Overflow::Visible
        &&& self.overflow_y == Overflow::Visible
        &&& self.flex_direction == FlexDirection::Row
        &&& self.flex_wrap == FlexWrap::NoWrap
        &&& self.justify_content is None
        &&& self.justify_items is None
        &&& self.align_items is None
        &&& self.align_content is None
        &&& self.align_self is None
        &&& self.justify_self is None
        &&& self.grid_auto_flow == GridAutoFlow::Row
        &&& self.flex_grow == 0
        &&& self.flex_shrink == 1000
        &&& self.aspect_ratio is None
        &&& self.width == Dimension::Auto
        &&& self.height == Dimension::Auto
        &&& self.min_width == Dimension::Auto
        &&& self.min_height == Dimension::Auto
        &&& self.max_width == Dimension::Auto
        &&& self.max_height == Dimension::Auto
        &&& self.flex_basis == Dimension::Auto
        &&& self.margin_top == Lpa::Length(0)
        &&& self.margin_right == Lpa::Length(0)
        &&& self.margin_bottom == Lpa::Length(0)
        &&& self.margin_left == Lpa::Length(0)
        &&& self.inset_top == Lpa::Auto
        &&& self.inset_right == Lpa::Auto
        &&& self.inset_bottom == Lpa::Auto
        &&& self.inset_left == Lpa::Auto
        &&& self.padding_top == Lp::Length(0)
        &&& self.padding_right == Lp::Length(0)
        &&& self.padding_bottom == Lp::Length(0)
        &&& self.padding_left == Lp::Length(0)
        &&& self.border_top == Lp::Length(0)
        &&& self.border_right == Lp::Length(0)
        &&& self.border_bottom == Lp::Length(0)
        &&& self.border_left == Lp::Length(0)
        &&& self.column_gap == Lp::Length(0)
        &&& self.row_gap == Lp::Length(0)
        &&& self.grid_column_start == GridPlacement::Auto
        &&& self.grid_column_end == GridPlacement::Auto
        &&& self.grid_row_start == GridPlacement::Auto
        &&& self.grid_row_end == GridPlacement::Auto
        &&& self.grid_template_columns@.len() == 0
        &&& self.grid_template_rows@.len() == 0
        &&& self.grid_auto_columns@.len() == 0
        &&& self.grid_auto_rows@.len() == 0
    }

    /// The baseline style: what an element's style is before any field is
    /// set. Mirrors the external solver's default style so that a record
    /// built from an empty input behaves identically.
    pub fn base() -> (r: StyleRecord)
        ensures
            r.is_base(),
            r.model() == base_model(),
    {
        let r = StyleRecord {
            display: Display::Flex,
            position: Position::Relative,
            overflow_x: Overflow::Visible,
            overflow_y: Overflow::Visible,
            flex_direction: FlexDirection::Row,
            flex_wrap: FlexWrap::NoWrap,
            justify_content: None,
            justify_items: None,
            align_items: None,
            align_content: None,
            align_self: None,
            justify_self: None,
            grid_auto_flow: GridAutoFlow::Row,
            flex_grow: 0,
            flex_shrink: 1000,
            aspect_ratio: None,
            width: Dimension::Auto,
            height: Dimension::Auto,
            min_width: Dimension::Auto,
            min_height: Dimension::Auto,
            max_width: Dimension::Auto,
            max_height: Dimension::Auto,
            flex_basis: Dimension::Auto,
            margin_top: Lpa::Length(0),
            margin_right: Lpa::Length(0),
            margin_bottom: Lpa::Length(0),
            margin_left: Lpa::Length(0),
            inset_top: Lpa::Auto,
            inset_right: Lpa::Auto,
            inset_bottom: Lpa::Auto,
            inset_left: Lpa::Auto,
            padding_top: Lp::Length(0),
            padding_right: Lp::Length(0),
            padding_bottom: Lp::Length(0),
            padding_left: Lp::Length(0),
            border_top: Lp::Length(0),
            border_right: Lp::Length(0),
            border_bottom: Lp::Length(0),
            border_left: Lp::Length(0),
            column_gap: Lp::Length(0),
            row_gap: Lp::Length(0),
            grid_column_start: GridPlacement::Auto,
            grid_column_end: GridPlacement::Auto,
            grid_row_start: GridPlacement::Auto,
            grid_row_end: GridPlacement::Auto,
            grid_template_columns: Vec::new(),
            grid_template_rows: Vec::new(),
            grid_auto_columns: Vec::new(),
            grid_auto_rows: Vec::new(),
        };
        proof {
            assert(templates_model(r.grid_template_columns@) =~= Seq::<
                TrackTemplateSpec,
            >::empty());
            assert(templates_model(r.grid_template_rows@) =~= Seq::<TrackTemplateSpec>::empty());
            assert(r.model() == base_model());
        }
        r
    }
}

/// A single decoded node: a normalized style and the indices of its
/// children within the same decoded batch (topological order, leaves
/// first).
#[derive(Clone, Debug, PartialEq)]
pub struct DecodedNode {
    pub style: StyleRecord,
    pub children: Vec<usize>,
}

} // verus!
