//! Textual style decoder.
//!
//! Structured key/value records carry the same style fields as the
//! binary wire format, as strings (`"200px"`, `"flex-start"`) plus plain
//! numbers. Extraction from parsed JSON hands the fields over as a
//! [`StyleInput`] of plain optional strings; [`convert_style`] — the
//! verified heart of the decoder — turns such an input into a
//! [`StyleRecord`] with the same default-on-absence behaviour as the
//! binary presence bitmap.

use crate::binary::{parse_sizings, parse_templates, spec_sizings_of, spec_templates_of, strs_bytes};
use crate::grammar::{
    parse_decimal, parse_dimension_range, parse_lpa_range, parse_lp_range, parse_placement_range,
    range_eq, spec_decimal, spec_parse_dimension, spec_parse_lpa, spec_parse_lp,
    spec_parse_placement,
};
use crate::style::{
    templates_model, AlignContent, AlignItems, AlignSelf, DecodedNode, Dimension, Display,
    FlexDirection, FlexWrap, GridAutoFlow, GridPlacement, JustifyContent, Lp, Lpa, Overflow,
    Position, StyleRecord,
};
use vstd::prelude::*;
use vstd::string::StringSliceAdditionalSpecFns;

verus! {

/// One element's style fields as extracted plain strings; an absent
/// member is `None`. Numeric members arrive as their decimal text.
pub struct StyleInput {
    pub display: Option<String>,
    pub position: Option<String>,
    pub overflow_x: Option<String>,
    pub overflow_y: Option<String>,
    pub flex_direction: Option<String>,
    pub flex_wrap: Option<String>,
    pub justify_content: Option<String>,
    pub justify_items: Option<String>,
    pub align_items: Option<String>,
    pub align_content: Option<String>,
    pub flex_grow: Option<String>,
    pub flex_shrink: Option<String>,
    pub flex_basis: Option<String>,
    pub align_self: Option<String>,
    pub justify_self: Option<String>,
    pub grid_template_columns: Option<Vec<String>>,
    pub grid_template_rows: Option<Vec<String>>,
    pub grid_auto_flow: Option<String>,
    pub grid_auto_columns: Option<Vec<String>>,
    pub grid_auto_rows: Option<Vec<String>>,
    pub grid_column_start: Option<String>,
    pub grid_column_end: Option<String>,
    pub grid_row_start: Option<String>,
    pub grid_row_end: Option<String>,
    pub width: Option<String>,
    pub height: Option<String>,
    pub min_width: Option<String>,
    pub min_height: Option<String>,
    pub max_width: Option<String>,
    pub max_height: Option<String>,
    pub margin_top: Option<String>,
    pub margin_right: Option<String>,
    pub margin_bottom: Option<String>,
    pub margin_left: Option<String>,
    pub padding_top: Option<String>,
    pub padding_right: Option<String>,
    pub padding_bottom: Option<String>,
    pub padding_left: Option<String>,
    pub border_top: Option<String>,
    pub border_right: Option<String>,
    pub border_bottom: Option<String>,
    pub border_left: Option<String>,
    pub inset_top: Option<String>,
    pub inset_right: Option<String>,
    pub inset_bottom: Option<String>,
    pub inset_left: Option<String>,
    pub column_gap: Option<String>,
    pub row_gap: Option<String>,
    pub aspect_ratio: Option<String>,
}

impl StyleInput {
    /// An input that sets nothing.
    pub fn empty() -> (r: StyleInput)
        ensures
            r.display is None,
            r.position is None,
            r.overflow_x is None,
            r.overflow_y is None,
            r.flex_direction is None,
            r.flex_wrap is None,
            r.justify_content is None,
            r.justify_items is None,
            r.align_items is None,
            r.align_content is None,
            r.flex_grow is None,
            r.flex_shrink is None,
            r.flex_basis is None,
            r.align_self is None,
            r.justify_self is None,
            r.grid_template_columns is None,
            r.grid_template_rows is None,
            r.grid_auto_flow is None,
            r.grid_auto_columns is None,
            r.grid_auto_rows is None,
            r.grid_column_start is None,
            r.grid_column_end is None,
            r.grid_row_start is None,
            r.grid_row_end is None,
            r.width is None,
            r.height is None,
            r.min_width is None,
            r.min_height is None,
            r.max_width is None,
            r.max_height is None,
            r.margin_top is None,
            r.margin_right is None,
            r.margin_bottom is None,
            r.margin_left is None,
            r.padding_top is None,
            r.padding_right is None,
            r.padding_bottom is None,
            r.padding_left is None,
            r.border_top is None,
            r.border_right is None,
            r.border_bottom is None,
            r.border_left is None,
            r.inset_top is None,
            r.inset_right is None,
            r.inset_bottom is None,
            r.inset_left is None,
            r.column_gap is None,
            r.row_gap is None,
            r.aspect_ratio is None,
    {
        StyleInput {
            display: None,
            position: None,
            overflow_x: None,
            overflow_y: None,
            flex_direction: None,
            flex_wrap: None,
            justify_content: None,
            justify_items: None,
            align_items: None,
            align_content: None,
            flex_grow: None,
            flex_shrink: None,
            flex_basis: None,
            align_self: None,
            justify_self: None,
            grid_template_columns: None,
            grid_template_rows: None,
            grid_auto_flow: None,
            grid_auto_columns: None,
            grid_auto_rows: None,
            grid_column_start: None,
            grid_column_end: None,
            grid_row_start: None,
            grid_row_end: None,
            width: None,
            height: None,
            min_width: None,
            min_height: None,
            max_width: None,
            max_height: None,
            margin_top: None,
            margin_right: None,
            margin_bottom: None,
            margin_left: None,
            padding_top: None,
            padding_right: None,
            padding_bottom: None,
            padding_left: None,
            border_top: None,
            border_right: None,
            border_bottom: None,
            border_left: None,
            inset_top: None,
            inset_right: None,
            inset_bottom: None,
            inset_left: None,
            column_gap: None,
            row_gap: None,
            aspect_ratio: None,
        }
    }
}

/// The byte text of a string value.
pub open spec fn sbytes(s: String) -> Seq<u8> {
    vstd::utf8::encode_utf8(s@)
}

/// Display keyword.
#[verifier::opaque]
pub open spec fn spec_display_kw(b: Seq<u8>) -> Display {
    if b =~= seq![103u8, 114u8, 105u8, 100u8] {
        Display::Grid
    } else if b =~= seq![98u8, 108u8, 111u8, 99u8, 107u8] {
        Display::Block
    } else if b =~= seq![110u8, 111u8, 110u8, 101u8] {
        Display::NoneDisplay
    } else {
        Display::Flex
    }
}

/// Parse a display keyword.
pub fn parse_display_kw(b: &[u8]) -> (r: Display)
    ensures
        r == spec_display_kw(b@),
{
    proof {
        reveal(spec_display_kw);
    }
    let grid_kw: [u8; 4] = [103, 114, 105, 100];
    let block_kw: [u8; 5] = [98, 108, 111, 99, 107];
    let none_kw: [u8; 4] = [110, 111, 110, 101];
    if range_eq(b, 0, b.len(), grid_kw.as_slice()) {
        Display::Grid
    } else if range_eq(b, 0, b.len(), block_kw.as_slice()) {
        Display::Block
    } else if range_eq(b, 0, b.len(), none_kw.as_slice()) {
        Display::NoneDisplay
    } else {
        Display::Flex
    }
}

/// Position keyword.
#[verifier::opaque]
pub open spec fn spec_position_kw(b: Seq<u8>) -> Position {
    if b =~= seq![97u8, 98u8, 115u8, 111u8, 108u8, 117u8, 116u8, 101u8] {
        Position::Absolute
    } else {
        Position::Relative
    }
}

/// Parse a position keyword.
pub fn parse_position_kw(b: &[u8]) -> (r: Position)
    ensures
        r == spec_position_kw(b@),
{
    proof {
        reveal(spec_position_kw);
    }
    let abs_kw: [u8; 8] = [97, 98, 115, 111, 108, 117, 116, 101];
    if range_eq(b, 0, b.len(), abs_kw.as_slice()) {
        Position::Absolute
    } else {
        Position::Relative
    }
}

/// Overflow keyword.
#[verifier::opaque]
pub open spec fn spec_overflow_kw(b: Seq<u8>) -> Overflow {
    if b =~= seq![104u8, 105u8, 100u8, 100u8, 101u8, 110u8] {
        Overflow::Hidden
    } else if b =~= seq![99u8, 108u8, 105u8, 112u8] {
        Overflow::Clip
    } else if b =~= seq![115u8, 99u8, 114u8, 111u8, 108u8, 108u8] {
        Overflow::Scroll
    } else {
        Overflow::Visible
    }
}

/// Parse an overflow keyword.
pub fn parse_overflow_kw(b: &[u8]) -> (r: Overflow)
    ensures
        r == spec_overflow_kw(b@),
{
    proof {
        reveal(spec_overflow_kw);
    }
    let hid_kw: [u8; 6] = [104, 105, 100, 100, 101, 110];
    let clip_kw: [u8; 4] = [99, 108, 105, 112];
    let scr_kw: [u8; 6] = [115, 99, 114, 111, 108, 108];
    if range_eq(b, 0, b.len(), hid_kw.as_slice()) {
        Overflow::Hidden
    } else if range_eq(b, 0, b.len(), clip_kw.as_slice()) {
        Overflow::Clip
    } else if range_eq(b, 0, b.len(), scr_kw.as_slice()) {
        Overflow::Scroll
    } else {
        Overflow::Visible
    }
}

/// Flex-direction keyword.
#[verifier::opaque]
pub open spec fn spec_flex_direction_kw(b: Seq<u8>) -> FlexDirection {
    if b =~= seq![99u8, 111u8, 108u8, 117u8, 109u8, 110u8] {
        FlexDirection::Column
    } else if b =~= seq![
        114u8, 111u8, 119u8, 45u8, 114u8, 101u8, 118u8, 101u8, 114u8, 115u8, 101u8,
    ] {
        FlexDirection::RowReverse
    } else if b =~= seq![
        99u8, 111u8, 108u8, 117u8, 109u8, 110u8, 45u8, 114u8, 101u8, 118u8, 101u8, 114u8, 115u8,
        101u8,
    ] {
        FlexDirection::ColumnReverse
    } else {
        FlexDirection::Row
    }
}

/// Parse a flex-direction keyword.
pub fn parse_flex_direction_kw(b: &[u8]) -> (r: FlexDirection)
    ensures
        r == spec_flex_direction_kw(b@),
{
    proof {
        reveal(spec_flex_direction_kw);
    }
    let col_kw: [u8; 6] = [99, 111, 108, 117, 109, 110];
    let rr_kw: [u8; 11] = [114, 111, 119, 45, 114, 101, 118, 101, 114, 115, 101];
    let cr_kw: [u8; 14] = [99, 111, 108, 117, 109, 110, 45, 114, 101, 118, 101, 114, 115, 101];
    if range_eq(b, 0, b.len(), col_kw.as_slice()) {
        FlexDirection::Column
    } else if range_eq(b, 0, b.len(), rr_kw.as_slice()) {
        FlexDirection::RowReverse
    } else if range_eq(b, 0, b.len(), cr_kw.as_slice()) {
        FlexDirection::ColumnReverse
    } else {
        FlexDirection::Row
    }
}

/// Flex-wrap keyword.
#[verifier::opaque]
pub open spec fn spec_flex_wrap_kw(b: Seq<u8>) -> FlexWrap {
    if b =~= seq![119u8, 114u8, 97u8, 112u8] {
        FlexWrap::Wrap
    } else if b =~= seq![
        119u8, 114u8, 97u8, 112u8, 45u8, 114u8, 101u8, 118u8, 101u8, 114u8, 115u8, 101u8,
    ] {
        FlexWrap::WrapReverse
    } else {
        FlexWrap::NoWrap
    }
}

/// Parse a flex-wrap keyword.
pub fn parse_flex_wrap_kw(b: &[u8]) -> (r: FlexWrap)
    ensures
        r == spec_flex_wrap_kw(b@),
{
    proof {
        reveal(spec_flex_wrap_kw);
    }
    let wrap_kw: [u8; 4] = [119, 114, 97, 112];
    let wr_kw: [u8; 12] = [119, 114, 97, 112, 45, 114, 101, 118, 101, 114, 115, 101];
    if range_eq(b, 0, b.len(), wrap_kw.as_slice()) {
        FlexWrap::Wrap
    } else if range_eq(b, 0, b.len(), wr_kw.as_slice()) {
        FlexWrap::WrapReverse
    } else {
        FlexWrap::NoWrap
    }
}

/// The bytes of `flex-start`.
pub open spec fn kw_flex_start() -> Seq<u8> {
    seq![102u8, 108u8, 101u8, 120u8, 45u8, 115u8, 116u8, 97u8, 114u8, 116u8]
}

/// The bytes of `start`.
pub open spec fn kw_start() -> Seq<u8> {
    seq![115u8, 116u8, 97u8, 114u8, 116u8]
}

/// The bytes of `flex-end`.
pub open spec fn kw_flex_end() -> Seq<u8> {
    seq![102u8, 108u8, 101u8, 120u8, 45u8, 101u8, 110u8, 100u8]
}

/// The bytes of `end`.
pub open spec fn kw_end() -> Seq<u8> {
    seq![101u8, 110u8, 100u8]
}

/// The bytes of `center`.
pub open spec fn kw_center() -> Seq<u8> {
    seq![99u8, 101u8, 110u8, 116u8, 101u8, 114u8]
}

/// The bytes of `stretch`.
pub open spec fn kw_stretch() -> Seq<u8> {
    seq![115u8, 116u8, 114u8, 101u8, 116u8, 99u8, 104u8]
}

/// The bytes of `baseline`.
pub open spec fn kw_baseline() -> Seq<u8> {
    seq![98u8, 97u8, 115u8, 101u8, 108u8, 105u8, 110u8, 101u8]
}

/// The bytes of `space-between`.
pub open spec fn kw_space_between() -> Seq<u8> {
    seq![115u8, 112u8, 97u8, 99u8, 101u8, 45u8, 98u8, 101u8, 116u8, 119u8, 101u8, 101u8, 110u8]
}

/// The bytes of `space-around`.
pub open spec fn kw_space_around() -> Seq<u8> {
    seq![115u8, 112u8, 97u8, 99u8, 101u8, 45u8, 97u8, 114u8, 111u8, 117u8, 110u8, 100u8]
}

/// The bytes of `space-evenly`.
pub open spec fn kw_space_evenly() -> Seq<u8> {
    seq![115u8, 112u8, 97u8, 99u8, 101u8, 45u8, 101u8, 118u8, 101u8, 110u8, 108u8, 121u8]
}

/// Main-axis distribution keyword.
#[verifier::opaque]
pub open spec fn spec_justify_content_kw(b: Seq<u8>) -> JustifyContent {
    if b =~= kw_flex_start() || b =~= kw_start() {
        JustifyContent::Start
    } else if b =~= kw_flex_end() || b =~= kw_end() {
        JustifyContent::End
    } else if b =~= kw_center() {
        JustifyContent::Center
    } else if b =~= kw_space_between() {
        JustifyContent::SpaceBetween
    } else if b =~= kw_space_around() {
        JustifyContent::SpaceAround
    } else if b =~= kw_space_evenly() {
        JustifyContent::SpaceEvenly
    } else if b =~= kw_stretch() {
        JustifyContent::Stretch
    } else {
        JustifyContent::Start
    }
}

/// Parse a main-axis distribution keyword.
pub fn parse_justify_content_kw(b: &[u8]) -> (r: JustifyContent)
    ensures
        r == spec_justify_content_kw(b@),
{
    proof {
        reveal(spec_justify_content_kw);
    }
    let fs: [u8; 10] = [102, 108, 101, 120, 45, 115, 116, 97, 114, 116];
    let st: [u8; 5] = [115, 116, 97, 114, 116];
    let fe: [u8; 8] = [102, 108, 101, 120, 45, 101, 110, 100];
    let en: [u8; 3] = [101, 110, 100];
    let ce: [u8; 6] = [99, 101, 110, 116, 101, 114];
    let sb: [u8; 13] = [115, 112, 97, 99, 101, 45, 98, 101, 116, 119, 101, 101, 110];
    let sa: [u8; 12] = [115, 112, 97, 99, 101, 45, 97, 114, 111, 117, 110, 100];
    let se: [u8; 12] = [115, 112, 97, 99, 101, 45, 101, 118, 101, 110, 108, 121];
    let stc: [u8; 7] = [115, 116, 114, 101, 116, 99, 104];
    let n = b.len();
    if range_eq(b, 0, n, fs.as_slice()) || range_eq(b, 0, n, st.as_slice()) {
        JustifyContent::Start
    } else if range_eq(b, 0, n, fe.as_slice()) || range_eq(b, 0, n, en.as_slice()) {
        JustifyContent::End
    } else if range_eq(b, 0, n, ce.as_slice()) {
        JustifyContent::Center
    } else if range_eq(b, 0, n, sb.as_slice()) {
        JustifyContent::SpaceBetween
    } else if range_eq(b, 0, n, sa.as_slice()) {
        JustifyContent::SpaceAround
    } else if range_eq(b, 0, n, se.as_slice()) {
        JustifyContent::SpaceEvenly
    } else if range_eq(b, 0, n, stc.as_slice()) {
        JustifyContent::Stretch
    } else {
        JustifyContent::Start
    }
}

/// Item alignment keyword.
#[verifier::opaque]
pub open spec fn spec_align_items_kw(b: Seq<u8>) -> AlignItems {
    if b =~= kw_flex_start() || b =~= kw_start() {
        AlignItems::Start
    } else if b =~= kw_flex_end() || b =~= kw_end() {
        AlignItems::End
    } else if b =~= kw_center() {
        AlignItems::Center
    } else if b =~= kw_stretch() {
        AlignItems::Stretch
    } else if b =~= kw_baseline() {
        AlignItems::Baseline
    } else {
        AlignItems::Stretch
    }
}

/// Parse an item alignment keyword.
pub fn parse_align_items_kw(b: &[u8]) -> (r: AlignItems)
    ensures
        r == spec_align_items_kw(b@),
{
    proof {
        reveal(spec_align_items_kw);
    }
    let fs: [u8; 10] = [102, 108, 101, 120, 45, 115, 116, 97, 114, 116];
    let st: [u8; 5] = [115, 116, 97, 114, 116];
    let fe: [u8; 8] = [102, 108, 101, 120, 45, 101, 110, 100];
    let en: [u8; 3] = [101, 110, 100];
    let ce: [u8; 6] = [99, 101, 110, 116, 101, 114];
    let stc: [u8; 7] = [115, 116, 114, 101, 116, 99, 104];
    let ba: [u8; 8] = [98, 97, 115, 101, 108, 105, 110, 101];
    let n = b.len();
    if range_eq(b, 0, n, fs.as_slice()) || range_eq(b, 0, n, st.as_slice()) {
        AlignItems::Start
    } else if range_eq(b, 0, n, fe.as_slice()) || range_eq(b, 0, n, en.as_slice()) {
        AlignItems::End
    } else if range_eq(b, 0, n, ce.as_slice()) {
        AlignItems::Center
    } else if range_eq(b, 0, n, stc.as_slice()) {
        AlignItems::Stretch
    } else if range_eq(b, 0, n, ba.as_slice()) {
        AlignItems::Baseline
    } else {
        AlignItems::Stretch
    }
}

/// Content alignment keyword.
#[verifier::opaque]
pub open spec fn spec_align_content_kw(b: Seq<u8>) -> AlignContent {
    if b =~= kw_flex_start() || b =~= kw_start() {
        AlignContent::Start
    } else if b =~= kw_flex_end() || b =~= kw_end() {
        AlignContent::End
    } else if b =~= kw_center() {
        AlignContent::Center
    } else if b =~= kw_stretch() {
        AlignContent::Stretch
    } else if b =~= kw_space_between() {
        AlignContent::SpaceBetween
    } else if b =~= kw_space_around() {
        AlignContent::SpaceAround
    } else if b =~= kw_space_evenly() {
        AlignContent::SpaceEvenly
    } else {
        AlignContent::Stretch
    }
}

/// Parse a content alignment keyword.
pub fn parse_align_content_kw(b: &[u8]) -> (r: AlignContent)
    ensures
        r == spec_align_content_kw(b@),
{
    proof {
        reveal(spec_align_content_kw);
    }
    let fs: [u8; 10] = [102, 108, 101, 120, 45, 115, 116, 97, 114, 116];
    let st: [u8; 5] = [115, 116, 97, 114, 116];
    let fe: [u8; 8] = [102, 108, 101, 120, 45, 101, 110, 100];
    let en: [u8; 3] = [101, 110, 100];
    let ce: [u8; 6] = [99, 101, 110, 116, 101, 114];
    let stc: [u8; 7] = [115, 116, 114, 101, 116, 99, 104];
    let sb: [u8; 13] = [115, 112, 97, 99, 101, 45, 98, 101, 116, 119, 101, 101, 110];
    let sa: [u8; 12] = [115, 112, 97, 99, 101, 45, 97, 114, 111, 117, 110, 100];
    let se: [u8; 12] = [115, 112, 97, 99, 101, 45, 101, 118, 101, 110, 108, 121];
    let n = b.len();
    if range_eq(b, 0, n, fs.as_slice()) || range_eq(b, 0, n, st.as_slice()) {
        AlignContent::Start
    } else if range_eq(b, 0, n, fe.as_slice()) || range_eq(b, 0, n, en.as_slice()) {
        AlignContent::End
    } else if range_eq(b, 0, n, ce.as_slice()) {
        AlignContent::Center
    } else if range_eq(b, 0, n, stc.as_slice()) {
        AlignContent::Stretch
    } else if range_eq(b, 0, n, sb.as_slice()) {
        AlignContent::SpaceBetween
    } else if range_eq(b, 0, n, sa.as_slice()) {
        AlignContent::SpaceAround
    } else if range_eq(b, 0, n, se.as_slice()) {
        AlignContent::SpaceEvenly
    } else {
        AlignContent::Stretch
    }
}

/// Self alignment keyword; anything else, `auto` included, is absent.
#[verifier::opaque]
pub open spec fn spec_align_self_kw(b: Seq<u8>) -> Option<AlignSelf> {
    if b =~= kw_flex_start() || b =~= kw_start() {
        Some(AlignSelf::Start)
    } else if b =~= kw_flex_end() || b =~= kw_end() {
        Some(AlignSelf::End)
    } else if b =~= kw_center() {
        Some(AlignSelf::Center)
    } else if b =~= kw_stretch() {
        Some(AlignSelf::Stretch)
    } else if b =~= kw_baseline() {
        Some(AlignSelf::Baseline)
    } else {
        None
    }
}

/// Parse a self alignment keyword.
pub fn parse_align_self_kw(b: &[u8]) -> (r: Option<AlignSelf>)
    ensures
        r == spec_align_self_kw(b@),
{
    proof {
        reveal(spec_align_self_kw);
    }
    let fs: [u8; 10] = [102, 108, 101, 120, 45, 115, 116, 97, 114, 116];
    let st: [u8; 5] = [115, 116, 97, 114, 116];
    let fe: [u8; 8] = [102, 108, 101, 120, 45, 101, 110, 100];
    let en: [u8; 3] = [101, 110, 100];
    let ce: [u8; 6] = [99, 101, 110, 116, 101, 114];
    let stc: [u8; 7] = [115, 116, 114, 101, 116, 99, 104];
    let ba: [u8; 8] = [98, 97, 115, 101, 108, 105, 110, 101];
    let n = b.len();
    if range_eq(b, 0, n, fs.as_slice()) || range_eq(b, 0, n, st.as_slice()) {
        Some(AlignSelf::Start)
    } else if range_eq(b, 0, n, fe.as_slice()) || range_eq(b, 0, n, en.as_slice()) {
        Some(AlignSelf::End)
    } else if range_eq(b, 0, n, ce.as_slice()) {
        Some(AlignSelf::Center)
    } else if range_eq(b, 0, n, stc.as_slice()) {
        Some(AlignSelf::Stretch)
    } else if range_eq(b, 0, n, ba.as_slice()) {
        Some(AlignSelf::Baseline)
    } else {
        None
    }
}

/// Grid auto-flow keyword, with both spaced and hyphenated dense forms.
#[verifier::opaque]
pub open spec fn spec_grid_auto_flow_kw(b: Seq<u8>) -> GridAutoFlow {
    if b =~= seq![99u8, 111u8, 108u8, 117u8, 109u8, 110u8] {
        GridAutoFlow::Column
    } else if b =~= seq![114u8, 111u8, 119u8, 32u8, 100u8, 101u8, 110u8, 115u8, 101u8] || b =~= seq![
        114u8, 111u8, 119u8, 45u8, 100u8, 101u8, 110u8, 115u8, 101u8,
    ] {
        GridAutoFlow::RowDense
    } else if b =~= seq![
        99u8, 111u8, 108u8, 117u8, 109u8, 110u8, 32u8, 100u8, 101u8, 110u8, 115u8, 101u8,
    ] || b =~= seq![
        99u8, 111u8, 108u8, 117u8, 109u8, 110u8, 45u8, 100u8, 101u8, 110u8, 115u8, 101u8,
    ] {
        GridAutoFlow::ColumnDense
    } else {
        GridAutoFlow::Row
    }
}

/// Cross-decoder agreement for the enum fields: each wire code of the
/// binary format decodes to the very value its textual keyword parses
/// to, over every enum table the two decoders share.
pub proof fn lemma_code_keyword_agreement()
    ensures
        crate::binary::spec_display_code(0) == spec_display_kw(seq![102u8, 108u8, 101u8, 120u8]),
        crate::binary::spec_display_code(1) == spec_display_kw(seq![103u8, 114u8, 105u8, 100u8]),
        crate::binary::spec_display_code(2) == spec_display_kw(
            seq![98u8, 108u8, 111u8, 99u8, 107u8],
        ),
        crate::binary::spec_display_code(3) == spec_display_kw(seq![110u8, 111u8, 110u8, 101u8]),
        crate::binary::spec_position_code(0) == spec_position_kw(
            seq![114u8, 101u8, 108u8, 97u8, 116u8, 105u8, 118u8, 101u8],
        ),
        crate::binary::spec_position_code(1) == spec_position_kw(
            seq![97u8, 98u8, 115u8, 111u8, 108u8, 117u8, 116u8, 101u8],
        ),
        crate::binary::spec_overflow_code(0) == spec_overflow_kw(
            seq![118u8, 105u8, 115u8, 105u8, 98u8, 108u8, 101u8],
        ),
        crate::binary::spec_overflow_code(1) == spec_overflow_kw(
            seq![104u8, 105u8, 100u8, 100u8, 101u8, 110u8],
        ),
        crate::binary::spec_overflow_code(2) == spec_overflow_kw(
            seq![99u8, 108u8, 105u8, 112u8],
        ),
        crate::binary::spec_overflow_code(3) == spec_overflow_kw(
            seq![115u8, 99u8, 114u8, 111u8, 108u8, 108u8],
        ),
        crate::binary::spec_flex_direction_code(0) == spec_flex_direction_kw(
            seq![114u8, 111u8, 119u8],
        ),
        crate::binary::spec_flex_direction_code(1) == spec_flex_direction_kw(
            seq![99u8, 111u8, 108u8, 117u8, 109u8, 110u8],
        ),
        crate::binary::spec_flex_direction_code(2) == spec_flex_direction_kw(
            seq![114u8, 111u8, 119u8, 45u8, 114u8, 101u8, 118u8, 101u8, 114u8, 115u8, 101u8],
        ),
        crate::binary::spec_flex_direction_code(3) == spec_flex_direction_kw(
            seq![
                99u8, 111u8, 108u8, 117u8, 109u8, 110u8, 45u8, 114u8, 101u8, 118u8, 101u8, 114u8,
                115u8, 101u8,
            ],
        ),
        crate::binary::spec_flex_wrap_code(0) == spec_flex_wrap_kw(
            seq![110u8, 111u8, 119u8, 114u8, 97u8, 112u8],
        ),
        crate::binary::spec_flex_wrap_code(1) == spec_flex_wrap_kw(
            seq![119u8, 114u8, 97u8, 112u8],
        ),
        crate::binary::spec_flex_wrap_code(2) == spec_flex_wrap_kw(
            seq![119u8, 114u8, 97u8, 112u8, 45u8, 114u8, 101u8, 118u8, 101u8, 114u8, 115u8, 101u8],
        ),
        crate::binary::spec_justify_content_code(0) == spec_justify_content_kw(kw_start()),
        crate::binary::spec_justify_content_code(1) == spec_justify_content_kw(kw_end()),
        crate::binary::spec_justify_content_code(2) == spec_justify_content_kw(kw_center()),
        crate::binary::spec_justify_content_code(3) == spec_justify_content_kw(
            kw_space_between(),
        ),
        crate::binary::spec_justify_content_code(4) == spec_justify_content_kw(
            kw_space_around(),
        ),
        crate::binary::spec_justify_content_code(5) == spec_justify_content_kw(
            kw_space_evenly(),
        ),
        crate::binary::spec_justify_content_code(6) == spec_justify_content_kw(kw_stretch()),
        crate::binary::spec_align_items_code(0) == spec_align_items_kw(kw_start()),
        crate::binary::spec_align_items_code(1) == spec_align_items_kw(kw_end()),
        crate::binary::spec_align_items_code(2) == spec_align_items_kw(kw_center()),
        crate::binary::spec_align_items_code(3) == spec_align_items_kw(kw_stretch()),
        crate::binary::spec_align_items_code(4) == spec_align_items_kw(kw_baseline()),
        crate::binary::spec_align_content_code(0) == spec_align_content_kw(kw_start()),
        crate::binary::spec_align_content_code(1) == spec_align_content_kw(kw_end()),
        crate::binary::spec_align_content_code(2) == spec_align_content_kw(kw_center()),
        crate::binary::spec_align_content_code(3) == spec_align_content_kw(kw_stretch()),
        crate::binary::spec_align_content_code(4) == spec_align_content_kw(kw_space_between()),
        crate::binary::spec_align_content_code(5) == spec_align_content_kw(kw_space_around()),
        crate::binary::spec_align_content_code(6) == spec_align_content_kw(kw_space_evenly()),
        crate::binary::spec_align_self_code(0) == spec_align_self_kw(
            seq![97u8, 117u8, 116u8, 111u8],
        ),
        crate::binary::spec_align_self_code(1) == spec_align_self_kw(kw_start()),
        crate::binary::spec_align_self_code(2) == spec_align_self_kw(kw_end()),
        crate::binary::spec_align_self_code(3) == spec_align_self_kw(kw_center()),
        crate::binary::spec_align_self_code(4) == spec_align_self_kw(kw_stretch()),
        crate::binary::spec_align_self_code(5) == spec_align_self_kw(kw_baseline()),
        crate::binary::spec_grid_auto_flow_code(0) == spec_grid_auto_flow_kw(
            seq![114u8, 111u8, 119u8],
        ),
        crate::binary::spec_grid_auto_flow_code(1) == spec_grid_auto_flow_kw(
            seq![99u8, 111u8, 108u8, 117u8, 109u8, 110u8],
        ),
        crate::binary::spec_grid_auto_flow_code(2) == spec_grid_auto_flow_kw(
            seq![114u8, 111u8, 119u8, 45u8, 100u8, 101u8, 110u8, 115u8, 101u8],
        ),
        crate::binary::spec_grid_auto_flow_code(3) == spec_grid_auto_flow_kw(
            seq![
                99u8, 111u8, 108u8, 117u8, 109u8, 110u8, 45u8, 100u8, 101u8, 110u8, 115u8, 101u8,
            ],
        ),
{
    reveal(spec_display_kw);
    reveal(spec_position_kw);
    reveal(spec_overflow_kw);
    reveal(spec_flex_direction_kw);
    reveal(spec_flex_wrap_kw);
    reveal(spec_justify_content_kw);
    reveal(spec_align_items_kw);
    reveal(spec_align_content_kw);
    reveal(spec_align_self_kw);
    reveal(spec_grid_auto_flow_kw);
}

/// The scalar a numeric member's decimal text denotes, or a fallback
/// when the text is not a plain decimal.
pub open spec fn spec_scalar_text(b: Seq<u8>, fallback: int) -> int {
    match spec_decimal(b, 0, b.len() as int) {
        Some(m) => m,
        None => fallback,
    }
}

/// A dimension-valued member applied over its default.
pub open spec fn opt_dimension(o: Option<String>, base: Dimension) -> Dimension {
    match o {
        Some(s) => spec_parse_dimension(sbytes(s), 0, sbytes(s).len() as int),
        None => base,
    }
}

/// A margin/inset-valued member applied over its default.
pub open spec fn opt_lpa(o: Option<String>, base: Lpa) -> Lpa {
    match o {
        Some(s) => spec_parse_lpa(sbytes(s), 0, sbytes(s).len() as int),
        None => base,
    }
}

/// A padding/border/gap-valued member applied over its default.
pub open spec fn opt_lp(o: Option<String>, base: Lp) -> Lp {
    match o {
        Some(s) => spec_parse_lp(sbytes(s), 0, sbytes(s).len() as int),
        None => base,
    }
}

/// A grid-placement member applied over its default.
pub open spec fn opt_placement(o: Option<String>, base: GridPlacement) -> GridPlacement {
    match o {
        Some(s) => spec_parse_placement(sbytes(s), 0, sbytes(s).len() as int),
        None => base,
    }
}

/// Convert an extracted textual record into a normalized style: every
/// present member is parsed by the shared value grammar and written
/// over the baseline, absent members keep the baseline value.
#[verifier::rlimit(100)]
pub fn convert_style(input: &StyleInput) -> (r: StyleRecord)
    ensures
        r.display == (match input.display {
            Some(s) => spec_display_kw(sbytes(s)),
            None => Display::Flex,
        }),
        r.position == (match input.position {
            Some(s) => spec_position_kw(sbytes(s)),
            None => Position::Relative,
        }),
        r.overflow_x == (match input.overflow_x {
            Some(s) => spec_overflow_kw(sbytes(s)),
            None => Overflow::Visible,
        }),
        r.overflow_y == (match input.overflow_y {
            Some(s) => spec_overflow_kw(sbytes(s)),
            None => Overflow::Visible,
        }),
        r.flex_direction == (match input.flex_direction {
            Some(s) => spec_flex_direction_kw(sbytes(s)),
            None => FlexDirection::Row,
        }),
        r.flex_wrap == (match input.flex_wrap {
            Some(s) => spec_flex_wrap_kw(sbytes(s)),
            None => FlexWrap::NoWrap,
        }),
        r.justify_content == (match input.justify_content {
            Some(s) => Some(spec_justify_content_kw(sbytes(s))),
            None => None::<JustifyContent>,
        }),
        r.justify_items == (match input.justify_items {
            Some(s) => Some(spec_align_items_kw(sbytes(s))),
            None => None::<AlignItems>,
        }),
        r.align_items == (match input.align_items {
            Some(s) => Some(spec_align_items_kw(sbytes(s))),
            None => None::<AlignItems>,
        }),
        r.align_content == (match input.align_content {
            Some(s) => Some(spec_align_content_kw(sbytes(s))),
            None => None::<AlignContent>,
        }),
        r.align_self == (match input.align_self {
            Some(s) => spec_align_self_kw(sbytes(s)),
            None => None::<AlignSelf>,
        }),
        r.justify_self == (match input.justify_self {
            Some(s) => spec_align_self_kw(sbytes(s)),
            None => None::<AlignSelf>,
        }),
        r.grid_auto_flow == (match input.grid_auto_flow {
            Some(s) => spec_grid_auto_flow_kw(sbytes(s)),
            None => GridAutoFlow::Row,
        }),
        r.flex_grow == (match input.flex_grow {
            Some(s) => spec_scalar_text(sbytes(s), 0),
            None => 0int,
        }),
        r.flex_shrink == (match input.flex_shrink {
            Some(s) => spec_scalar_text(sbytes(s), 1000),
            None => 1000int,
        }),
        r.aspect_ratio == (match input.aspect_ratio {
            Some(s) => match spec_decimal(sbytes(s), 0, sbytes(s).len() as int) {
                Some(m) => Some(m as i64),
                None => None::<i64>,
            },
            None => None::<i64>,
        }),
        r.width == opt_dimension(input.width, Dimension::Auto),
        r.height == opt_dimension(input.height, Dimension::Auto),
        r.min_width == opt_dimension(input.min_width, Dimension::Auto),
        r.min_height == opt_dimension(input.min_height, Dimension::Auto),
        r.max_width == opt_dimension(input.max_width, Dimension::Auto),
        r.max_height == opt_dimension(input.max_height, Dimension::Auto),
        r.flex_basis == opt_dimension(input.flex_basis, Dimension::Auto),
        r.margin_top == opt_lpa(input.margin_top, Lpa::Length(0)),
        r.margin_right == opt_lpa(input.margin_right, Lpa::Length(0)),
        r.margin_bottom == opt_lpa(input.margin_bottom, Lpa::Length(0)),
        r.margin_left == opt_lpa(input.margin_left, Lpa::Length(0)),
        r.inset_top == opt_lpa(input.inset_top, Lpa::Auto),
        r.inset_right == opt_lpa(input.inset_right, Lpa::Auto),
        r.inset_bottom == opt_lpa(input.inset_bottom, Lpa::Auto),
        r.inset_left == opt_lpa(input.inset_left, Lpa::Auto),
        r.padding_top == opt_lp(input.padding_top, Lp::Length(0)),
        r.padding_right == opt_lp(input.padding_right, Lp::Length(0)),
        r.padding_bottom == opt_lp(input.padding_bottom, Lp::Length(0)),
        r.padding_left == opt_lp(input.padding_left, Lp::Length(0)),
        r.border_top == opt_lp(input.border_top, Lp::Length(0)),
        r.border_right == opt_lp(input.border_right, Lp::Length(0)),
        r.border_bottom == opt_lp(input.border_bottom, Lp::Length(0)),
        r.border_left == opt_lp(input.border_left, Lp::Length(0)),
        r.column_gap == opt_lp(input.column_gap, Lp::Length(0)),
        r.row_gap == opt_lp(input.row_gap, Lp::Length(0)),
        r.grid_column_start == opt_placement(input.grid_column_start, GridPlacement::Auto),
        r.grid_column_end == opt_placement(input.grid_column_end, GridPlacement::Auto),
        r.grid_row_start == opt_placement(input.grid_row_start, GridPlacement::Auto),
        r.grid_row_end == opt_placement(input.grid_row_end, GridPlacement::Auto),
        templates_model(r.grid_template_columns@) == (match input.grid_template_columns {
            Some(l) => spec_templates_of(strs_bytes(l@)),
            None => Seq::empty(),
        }),
        templates_model(r.grid_template_rows@) == (match input.grid_template_rows {
            Some(l) => spec_templates_of(strs_bytes(l@)),
            None => Seq::empty(),
        }),
        r.grid_auto_columns@ == (match input.grid_auto_columns {
            Some(l) => spec_sizings_of(strs_bytes(l@)),
            None => Seq::empty(),
        }),
        r.grid_auto_rows@ == (match input.grid_auto_rows {
            Some(l) => spec_sizings_of(strs_bytes(l@)),
            None => Seq::empty(),
        }),
{
    let mut st = StyleRecord::base();
    convert_kw_fields_0(input, &mut st);
    convert_kw_fields_1(input, &mut st);
    convert_kw_fields_2(input, &mut st);
    convert_number_fields(input, &mut st);
    convert_value_fields_0(input, &mut st);
    convert_value_fields_1(input, &mut st);
    convert_value_fields_2(input, &mut st);
    convert_value_fields_3(input, &mut st);
    convert_value_fields_4(input, &mut st);
    convert_value_fields_5(input, &mut st);
    convert_track_fields(input, &mut st);
    st
}

/// Apply a group of keyword members over the record.
fn convert_kw_fields_0(input: &StyleInput, st: &mut StyleRecord)
    ensures
        final(st).display == (match input.display {
            Some(s) => spec_display_kw(sbytes(s)),
            None => old(st).display,
        }),
        final(st).position == (match input.position {
            Some(s) => spec_position_kw(sbytes(s)),
            None => old(st).position,
        }),
        final(st).overflow_x == (match input.overflow_x {
            Some(s) => spec_overflow_kw(sbytes(s)),
            None => old(st).overflow_x,
        }),
        final(st).overflow_y == (match input.overflow_y {
            Some(s) => spec_overflow_kw(sbytes(s)),
            None => old(st).overflow_y,
        }),
        final(st).flex_direction == (match input.flex_direction {
            Some(s) => spec_flex_direction_kw(sbytes(s)),
            None => old(st).flex_direction,
        }),
        final(st).flex_wrap == old(st).flex_wrap,
        final(st).justify_content == old(st).justify_content,
        final(st).justify_items == old(st).justify_items,
        final(st).align_items == old(st).align_items,
        final(st).align_content == old(st).align_content,
        final(st).align_self == old(st).align_self,
        final(st).justify_self == old(st).justify_self,
        final(st).grid_auto_flow == old(st).grid_auto_flow,
        final(st).flex_grow == old(st).flex_grow,
        final(st).flex_shrink == old(st).flex_shrink,
        final(st).aspect_ratio == old(st).aspect_ratio,
        final(st).width == old(st).width,
        final(st).height == old(st).height,
        final(st).min_width == old(st).min_width,
        final(st).min_height == old(st).min_height,
        final(st).max_width == old(st).max_width,
        final(st).max_height == old(st).max_height,
        final(st).flex_basis == old(st).flex_basis,
        final(st).margin_top == old(st).margin_top,
        final(st).margin_right == old(st).margin_right,
        final(st).margin_bottom == old(st).margin_bottom,
        final(st).margin_left == old(st).margin_left,
        final(st).inset_top == old(st).inset_top,
        final(st).inset_right == old(st).inset_right,
        final(st).inset_bottom == old(st).inset_bottom,
        final(st).inset_left == old(st).inset_left,
        final(st).padding_top == old(st).padding_top,
        final(st).padding_right == old(st).padding_right,
        final(st).padding_bottom == old(st).padding_bottom,
        final(st).padding_left == old(st).padding_left,
        final(st).border_top == old(st).border_top,
        final(st).border_right == old(st).border_right,
        final(st).border_bottom == old(st).border_bottom,
        final(st).border_left == old(st).border_left,
        final(st).column_gap == old(st).column_gap,
        final(st).row_gap == old(st).row_gap,
        final(st).grid_column_start == old(st).grid_column_start,
        final(st).grid_column_end == old(st).grid_column_end,
        final(st).grid_row_start == old(st).grid_row_start,
        final(st).grid_row_end == old(st).grid_row_end,
        final(st).grid_template_columns == old(st).grid_template_columns,
        final(st).grid_template_rows == old(st).grid_template_rows,
        final(st).grid_auto_columns == old(st).grid_auto_columns,
        final(st).grid_auto_rows == old(st).grid_auto_rows,
{
    if let Some(s) = &input.display {
        st.display = parse_display_kw(s.as_str().as_bytes());
    }
    if let Some(s) = &input.position {
        st.position = parse_position_kw(s.as_str().as_bytes());
    }
    if let Some(s) = &input.overflow_x {
        st.overflow_x = parse_overflow_kw(s.as_str().as_bytes());
    }
    if let Some(s) = &input.overflow_y {
        st.overflow_y = parse_overflow_kw(s.as_str().as_bytes());
    }
    if let Some(s) = &input.flex_direction {
        st.flex_direction = parse_flex_direction_kw(s.as_str().as_bytes());
    }
}

/// Apply a group of keyword members over the record.
fn convert_kw_fields_1(input: &StyleInput, st: &mut StyleRecord)
    ensures
        final(st).flex_wrap == (match input.flex_wrap {
            Some(s) => spec_flex_wrap_kw(sbytes(s)),
            None => old(st).flex_wrap,
        }),
        final(st).justify_content == (match input.justify_content {
            Some(s) => Some(spec_justify_content_kw(sbytes(s))),
            None => old(st).justify_content,
        }),
        final(st).justify_items == (match input.justify_items {
            Some(s) => Some(spec_align_items_kw(sbytes(s))),
            None => old(st).justify_items,
        }),
        final(st).align_items == (match input.align_items {
            Some(s) => Some(spec_align_items_kw(sbytes(s))),
            None => old(st).align_items,
        }),
        final(st).align_content == (match input.align_content {
            Some(s) => Some(spec_align_content_kw(sbytes(s))),
            None => old(st).align_content,
        }),
        final(st).display == old(st).display,
        final(st).position == old(st).position,
        final(st).overflow_x == old(st).overflow_x,
        final(st).overflow_y == old(st).overflow_y,
        final(st).flex_direction == old(st).flex_direction,
        final(st).align_self == old(st).align_self,
        final(st).justify_self == old(st).justify_self,
        final(st).grid_auto_flow == old(st).grid_auto_flow,
        final(st).flex_grow == old(st).flex_grow,
        final(st).flex_shrink == old(st).flex_shrink,
        final(st).aspect_ratio == old(st).aspect_ratio,
        final(st).width == old(st).width,
        final(st).height == old(st).height,
        final(st).min_width == old(st).min_width,
        final(st).min_height == old(st).min_height,
        final(st).max_width == old(st).max_width,
        final(st).max_height == old(st).max_height,
        final(st).flex_basis == old(st).flex_basis,
        final(st).margin_top == old(st).margin_top,
        final(st).margin_right == old(st).margin_right,
        final(st).margin_bottom == old(st).margin_bottom,
        final(st).margin_left == old(st).margin_left,
        final(st).inset_top == old(st).inset_top,
        final(st).inset_right == old(st).inset_right,
        final(st).inset_bottom == old(st).inset_bottom,
        final(st).inset_left == old(st).inset_left,
        final(st).padding_top == old(st).padding_top,
        final(st).padding_right == old(st).padding_right,
        final(st).padding_bottom == old(st).padding_bottom,
        final(st).padding_left == old(st).padding_left,
        final(st).border_top == old(st).border_top,
        final(st).border_right == old(st).border_right,
        final(st).border_bottom == old(st).border_bottom,
        final(st).border_left == old(st).border_left,
        final(st).column_gap == old(st).column_gap,
        final(st).row_gap == old(st).row_gap,
        final(st).grid_column_start == old(st).grid_column_start,
        final(st).grid_column_end == old(st).grid_column_end,
        final(st).grid_row_start == old(st).grid_row_start,
        final(st).grid_row_end == old(st).grid_row_end,
        final(st).grid_template_columns == old(st).grid_template_columns,
        final(st).grid_template_rows == old(st).grid_template_rows,
        final(st).grid_auto_columns == old(st).grid_auto_columns,
        final(st).grid_auto_rows == old(st).grid_auto_rows,
{
    if let Some(s) = &input.flex_wrap {
        st.flex_wrap = parse_flex_wrap_kw(s.as_str().as_bytes());
    }
    if let Some(s) = &input.justify_content {
        st.justify_content = Some(parse_justify_content_kw(s.as_str().as_bytes()));
    }
    if let Some(s) = &input.justify_items {
        st.justify_items = Some(parse_align_items_kw(s.as_str().as_bytes()));
    }
    if let Some(s) = &input.align_items {
        st.align_items = Some(parse_align_items_kw(s.as_str().as_bytes()));
    }
    if let Some(s) = &input.align_content {
        st.align_content = Some(parse_align_content_kw(s.as_str().as_bytes()));
    }
}

/// Apply a group of keyword members over the record.
fn convert_kw_fields_2(input: &StyleInput, st: &mut StyleRecord)
    ensures
        final(st).align_self == (match input.align_self {
            Some(s) => spec_align_self_kw(sbytes(s)),
            None => old(st).align_self,
        }),
        final(st).justify_self == (match input.justify_self {
            Some(s) => spec_align_self_kw(sbytes(s)),
            None => old(st).justify_self,
        }),
        final(st).grid_auto_flow == (match input.grid_auto_flow {
            Some(s) => spec_grid_auto_flow_kw(sbytes(s)),
            None => old(st).grid_auto_flow,
        }),
        final(st).display == old(st).display,
        final(st).position == old(st).position,
        final(st).overflow_x == old(st).overflow_x,
        final(st).overflow_y == old(st).overflow_y,
        final(st).flex_direction == old(st).flex_direction,
        final(st).flex_wrap == old(st).flex_wrap,
        final(st).justify_content == old(st).justify_content,
        final(st).justify_items == old(st).justify_items,
        final(st).align_items == old(st).align_items,
        final(st).align_content == old(st).align_content,
        final(st).flex_grow == old(st).flex_grow,
        final(st).flex_shrink == old(st).flex_shrink,
        final(st).aspect_ratio == old(st).aspect_ratio,
        final(st).width == old(st).width,
        final(st).height == old(st).height,
        final(st).min_width == old(st).min_width,
        final(st).min_height == old(st).min_height,
        final(st).max_width == old(st).max_width,
        final(st).max_height == old(st).max_height,
        final(st).flex_basis == old(st).flex_basis,
        final(st).margin_top == old(st).margin_top,
        final(st).margin_right == old(st).margin_right,
        final(st).margin_bottom == old(st).margin_bottom,
        final(st).margin_left == old(st).margin_left,
        final(st).inset_top == old(st).inset_top,
        final(st).inset_right == old(st).inset_right,
        final(st).inset_bottom == old(st).inset_bottom,
        final(st).inset_left == old(st).inset_left,
        final(st).padding_top == old(st).padding_top,
        final(st).padding_right == old(st).padding_right,
        final(st).padding_bottom == old(st).padding_bottom,
        final(st).padding_left == old(st).padding_left,
        final(st).border_top == old(st).border_top,
        final(st).border_right == old(st).border_right,
        final(st).border_bottom == old(st).border_bottom,
        final(st).border_left == old(st).border_left,
        final(st).column_gap == old(st).column_gap,
        final(st).row_gap == old(st).row_gap,
        final(st).grid_column_start == old(st).grid_column_start,
        final(st).grid_column_end == old(st).grid_column_end,
        final(st).grid_row_start == old(st).grid_row_start,
        final(st).grid_row_end == old(st).grid_row_end,
        final(st).grid_template_columns == old(st).grid_template_columns,
        final(st).grid_template_rows == old(st).grid_template_rows,
        final(st).grid_auto_columns == old(st).grid_auto_columns,
        final(st).grid_auto_rows == old(st).grid_auto_rows,
{
    if let Some(s) = &input.align_self {
        st.align_self = parse_align_self_kw(s.as_str().as_bytes());
    }
    if let Some(s) = &input.justify_self {
        st.justify_self = parse_align_self_kw(s.as_str().as_bytes());
    }
    if let Some(s) = &input.grid_auto_flow {
        st.grid_auto_flow = parse_grid_auto_flow_kw(s.as_str().as_bytes());
    }
}

/// Apply the plain numeric members over the record.
fn convert_number_fields(input: &StyleInput, st: &mut StyleRecord)
    ensures
        final(st).flex_grow == (match input.flex_grow {
            Some(s) => spec_scalar_text(sbytes(s), old(st).flex_grow as int),
            None => old(st).flex_grow as int,
        }),
        final(st).flex_shrink == (match input.flex_shrink {
            Some(s) => spec_scalar_text(sbytes(s), old(st).flex_shrink as int),
            None => old(st).flex_shrink as int,
        }),
        final(st).aspect_ratio == (match input.aspect_ratio {
            Some(s) => match spec_decimal(sbytes(s), 0, sbytes(s).len() as int) {
                Some(m) => Some(m as i64),
                None => old(st).aspect_ratio,
            },
            None => old(st).aspect_ratio,
        }),
        final(st).display == old(st).display,
        final(st).position == old(st).position,
        final(st).overflow_x == old(st).overflow_x,
        final(st).overflow_y == old(st).overflow_y,
        final(st).flex_direction == old(st).flex_direction,
        final(st).flex_wrap == old(st).flex_wrap,
        final(st).justify_content == old(st).justify_content,
        final(st).justify_items == old(st).justify_items,
        final(st).align_items == old(st).align_items,
        final(st).align_content == old(st).align_content,
        final(st).align_self == old(st).align_self,
        final(st).justify_self == old(st).justify_self,
        final(st).grid_auto_flow == old(st).grid_auto_flow,
        final(st).width == old(st).width,
        final(st).height == old(st).height,
        final(st).min_width == old(st).min_width,
        final(st).min_height == old(st).min_height,
        final(st).max_width == old(st).max_width,
        final(st).max_height == old(st).max_height,
        final(st).flex_basis == old(st).flex_basis,
        final(st).margin_top == old(st).margin_top,
        final(st).margin_right == old(st).margin_right,
        final(st).margin_bottom == old(st).margin_bottom,
        final(st).margin_left == old(st).margin_left,
        final(st).inset_top == old(st).inset_top,
        final(st).inset_right == old(st).inset_right,
        final(st).inset_bottom == old(st).inset_bottom,
        final(st).inset_left == old(st).inset_left,
        final(st).padding_top == old(st).padding_top,
        final(st).padding_right == old(st).padding_right,
        final(st).padding_bottom == old(st).padding_bottom,
        final(st).padding_left == old(st).padding_left,
        final(st).border_top == old(st).border_top,
        final(st).border_right == old(st).border_right,
        final(st).border_bottom == old(st).border_bottom,
        final(st).border_left == old(st).border_left,
        final(st).column_gap == old(st).column_gap,
        final(st).row_gap == old(st).row_gap,
        final(st).grid_column_start == old(st).grid_column_start,
        final(st).grid_column_end == old(st).grid_column_end,
        final(st).grid_row_start == old(st).grid_row_start,
        final(st).grid_row_end == old(st).grid_row_end,
        final(st).grid_template_columns == old(st).grid_template_columns,
        final(st).grid_template_rows == old(st).grid_template_rows,
        final(st).grid_auto_columns == old(st).grid_auto_columns,
        final(st).grid_auto_rows == old(st).grid_auto_rows,
{
    if let Some(s) = &input.flex_grow {
        let b = s.as_str().as_bytes();
        if let Some(m) = parse_decimal(b, 0, b.len()) {
            st.flex_grow = m;
        }
    }
    if let Some(s) = &input.flex_shrink {
        let b = s.as_str().as_bytes();
        if let Some(m) = parse_decimal(b, 0, b.len()) {
            st.flex_shrink = m;
        }
    }
    if let Some(s) = &input.aspect_ratio {
        let b = s.as_str().as_bytes();
        if let Some(m) = parse_decimal(b, 0, b.len()) {
            st.aspect_ratio = Some(m);
        }
    }
}

/// Apply a group of grammar-valued members over the record.
fn convert_value_fields_0(input: &StyleInput, st: &mut StyleRecord)
    ensures
        final(st).width == (match input.width {
            Some(s) => spec_parse_dimension(sbytes(s), 0, sbytes(s).len() as int),
            None => old(st).width,
        }),
        final(st).height == (match input.height {
            Some(s) => spec_parse_dimension(sbytes(s), 0, sbytes(s).len() as int),
            None => old(st).height,
        }),
        final(st).min_width == (match input.min_width {
            Some(s) => spec_parse_dimension(sbytes(s), 0, sbytes(s).len() as int),
            None => old(st).min_width,
        }),
        final(st).min_height == (match input.min_height {
            Some(s) => spec_parse_dimension(sbytes(s), 0, sbytes(s).len() as int),
            None => old(st).min_height,
        }),
        final(st).max_width == (match input.max_width {
            Some(s) => spec_parse_dimension(sbytes(s), 0, sbytes(s).len() as int),
            None => old(st).max_width,
        }),
        final(st).display == old(st).display,
        final(st).position == old(st).position,
        final(st).overflow_x == old(st).overflow_x,
        final(st).overflow_y == old(st).overflow_y,
        final(st).flex_direction == old(st).flex_direction,
        final(st).flex_wrap == old(st).flex_wrap,
        final(st).justify_content == old(st).justify_content,
        final(st).justify_items == old(st).justify_items,
        final(st).align_items == old(st).align_items,
        final(st).align_content == old(st).align_content,
        final(st).align_self == old(st).align_self,
        final(st).justify_self == old(st).justify_self,
        final(st).grid_auto_flow == old(st).grid_auto_flow,
        final(st).flex_grow == old(st).flex_grow,
        final(st).flex_shrink == old(st).flex_shrink,
        final(st).aspect_ratio == old(st).aspect_ratio,
        final(st).max_height == old(st).max_height,
        final(st).flex_basis == old(st).flex_basis,
        final(st).margin_top == old(st).margin_top,
        final(st).margin_right == old(st).margin_right,
        final(st).margin_bottom == old(st).margin_bottom,
        final(st).margin_left == old(st).margin_left,
        final(st).inset_top == old(st).inset_top,
        final(st).inset_right == old(st).inset_right,
        final(st).inset_bottom == old(st).inset_bottom,
        final(st).inset_left == old(st).inset_left,
        final(st).padding_top == old(st).padding_top,
        final(st).padding_right == old(st).padding_right,
        final(st).padding_bottom == old(st).padding_bottom,
        final(st).padding_left == old(st).padding_left,
        final(st).border_top == old(st).border_top,
        final(st).border_right == old(st).border_right,
        final(st).border_bottom == old(st).border_bottom,
        final(st).border_left == old(st).border_left,
        final(st).column_gap == old(st).column_gap,
        final(st).row_gap == old(st).row_gap,
        final(st).grid_column_start == old(st).grid_column_start,
        final(st).grid_column_end == old(st).grid_column_end,
        final(st).grid_row_start == old(st).grid_row_start,
        final(st).grid_row_end == old(st).grid_row_end,
        final(st).grid_template_columns == old(st).grid_template_columns,
        final(st).grid_template_rows == old(st).grid_template_rows,
        final(st).grid_auto_columns == old(st).grid_auto_columns,
        final(st).grid_auto_rows == old(st).grid_auto_rows,
{
    if let Some(s) = &input.width {
        let b = s.as_str().as_bytes();
        st.width = parse_dimension_range(b, 0, b.len());
    }
    if let Some(s) = &input.height {
        let b = s.as_str().as_bytes();
        st.height = parse_dimension_range(b, 0, b.len());
    }
    if let Some(s) = &input.min_width {
        let b = s.as_str().as_bytes();
        st.min_width = parse_dimension_range(b, 0, b.len());
    }
    if let Some(s) = &input.min_height {
        let b = s.as_str().as_bytes();
        st.min_height = parse_dimension_range(b, 0, b.len());
    }
    if let Some(s) = &input.max_width {
        let b = s.as_str().as_bytes();
        st.max_width = parse_dimension_range(b, 0, b.len());
    }
}

/// Apply a group of grammar-valued members over the record.
fn convert_value_fields_1(input: &StyleInput, st: &mut StyleRecord)
    ensures
        final(st).max_height == (match input.max_height {
            Some(s) => spec_parse_dimension(sbytes(s), 0, sbytes(s).len() as int),
            None => old(st).max_height,
        }),
        final(st).flex_basis == (match input.flex_basis {
            Some(s) => spec_parse_dimension(sbytes(s), 0, sbytes(s).len() as int),
            None => old(st).flex_basis,
        }),
        final(st).margin_top == (match input.margin_top {
            Some(s) => spec_parse_lpa(sbytes(s), 0, sbytes(s).len() as int),
            None => old(st).margin_top,
        }),
        final(st).margin_right == (match input.margin_right {
            Some(s) => spec_parse_lpa(sbytes(s), 0, sbytes(s).len() as int),
            None => old(st).margin_right,
        }),
        final(st).margin_bottom == (match input.margin_bottom {
            Some(s) => spec_parse_lpa(sbytes(s), 0, sbytes(s).len() as int),
            None => old(st).margin_bottom,
        }),
        final(st).display == old(st).display,
        final(st).position == old(st).position,
        final(st).overflow_x == old(st).overflow_x,
        final(st).overflow_y == old(st).overflow_y,
        final(st).flex_direction == old(st).flex_direction,
        final(st).flex_wrap == old(st).flex_wrap,
        final(st).justify_content == old(st).justify_content,
        final(st).justify_items == old(st).justify_items,
        final(st).align_items == old(st).align_items,
        final(st).align_content == old(st).align_content,
        final(st).align_self == old(st).align_self,
        final(st).justify_self == old(st).justify_self,
        final(st).grid_auto_flow == old(st).grid_auto_flow,
        final(st).flex_grow == old(st).flex_grow,
        final(st).flex_shrink == old(st).flex_shrink,
        final(st).aspect_ratio == old(st).aspect_ratio,
        final(st).width == old(st).width,
        final(st).height == old(st).height,
        final(st).min_width == old(st).min_width,
        final(st).min_height == old(st).min_height,
        final(st).max_width == old(st).max_width,
        final(st).margin_left == old(st).margin_left,
        final(st).inset_top == old(st).inset_top,
        final(st).inset_right == old(st).inset_right,
        final(st).inset_bottom == old(st).inset_bottom,
        final(st).inset_left == old(st).inset_left,
        final(st).padding_top == old(st).padding_top,
        final(st).padding_right == old(st).padding_right,
        final(st).padding_bottom == old(st).padding_bottom,
        final(st).padding_left == old(st).padding_left,
        final(st).border_top == old(st).border_top,
        final(st).border_right == old(st).border_right,
        final(st).border_bottom == old(st).border_bottom,
        final(st).border_left == old(st).border_left,
        final(st).column_gap == old(st).column_gap,
        final(st).row_gap == old(st).row_gap,
        final(st).grid_column_start == old(st).grid_column_start,
        final(st).grid_column_end == old(st).grid_column_end,
        final(st).grid_row_start == old(st).grid_row_start,
        final(st).grid_row_end == old(st).grid_row_end,
        final(st).grid_template_columns == old(st).grid_template_columns,
        final(st).grid_template_rows == old(st).grid_template_rows,
        final(st).grid_auto_columns == old(st).grid_auto_columns,
        final(st).grid_auto_rows == old(st).grid_auto_rows,
{
    if let Some(s) = &input.max_height {
        let b = s.as_str().as_bytes();
        st.max_height = parse_dimension_range(b, 0, b.len());
    }
    if let Some(s) = &input.flex_basis {
        let b = s.as_str().as_bytes();
        st.flex_basis = parse_dimension_range(b, 0, b.len());
    }
    if let Some(s) = &input.margin_top {
        let b = s.as_str().as_bytes();
        st.margin_top = parse_lpa_range(b, 0, b.len());
    }
    if let Some(s) = &input.margin_right {
        let b = s.as_str().as_bytes();
        st.margin_right = parse_lpa_range(b, 0, b.len());
    }
    if let Some(s) = &input.margin_bottom {
        let b = s.as_str().as_bytes();
        st.margin_bottom = parse_lpa_range(b, 0, b.len());
    }
}

/// Apply a group of grammar-valued members over the record.
fn convert_value_fields_2(input: &StyleInput, st: &mut StyleRecord)
    ensures
        final(st).margin_left == (match input.margin_left {
            Some(s) => spec_parse_lpa(sbytes(s), 0, sbytes(s).len() as int),
            None => old(st).margin_left,
        }),
        final(st).inset_top == (match input.inset_top {
            Some(s) => spec_parse_lpa(sbytes(s), 0, sbytes(s).len() as int),
            None => old(st).inset_top,
        }),
        final(st).inset_right == (match input.inset_right {
            Some(s) => spec_parse_lpa(sbytes(s), 0, sbytes(s).len() as int),
            None => old(st).inset_right,
        }),
        final(st).inset_bottom == (match input.inset_bottom {
            Some(s) => spec_parse_lpa(sbytes(s), 0, sbytes(s).len() as int),
            None => old(st).inset_bottom,
        }),
        final(st).inset_left == (match input.inset_left {
            Some(s) => spec_parse_lpa(sbytes(s), 0, sbytes(s).len() as int),
            None => old(st).inset_left,
        }),
        final(st).display == old(st).display,
        final(st).position == old(st).position,
        final(st).overflow_x == old(st).overflow_x,
        final(st).overflow_y == old(st).overflow_y,
        final(st).flex_direction == old(st).flex_direction,
        final(st).flex_wrap == old(st).flex_wrap,
        final(st).justify_content == old(st).justify_content,
        final(st).justify_items == old(st).justify_items,
        final(st).align_items == old(st).align_items,
        final(st).align_content == old(st).align_content,
        final(st).align_self == old(st).align_self,
        final(st).justify_self == old(st).justify_self,
        final(st).grid_auto_flow == old(st).grid_auto_flow,
        final(st).flex_grow == old(st).flex_grow,
        final(st).flex_shrink == old(st).flex_shrink,
        final(st).aspect_ratio == old(st).aspect_ratio,
        final(st).width == old(st).width,
        final(st).height == old(st).height,
        final(st).min_width == old(st).min_width,
        final(st).min_height == old(st).min_height,
        final(st).max_width == old(st).max_width,
        final(st).max_height == old(st).max_height,
        final(st).flex_basis == old(st).flex_basis,
        final(st).margin_top == old(st).margin_top,
        final(st).margin_right == old(st).margin_right,
        final(st).margin_bottom == old(st).margin_bottom,
        final(st).padding_top == old(st).padding_top,
        final(st).padding_right == old(st).padding_right,
        final(st).padding_bottom == old(st).padding_bottom,
        final(st).padding_left == old(st).padding_left,
        final(st).border_top == old(st).border_top,
        final(st).border_right == old(st).border_right,
        final(st).border_bottom == old(st).border_bottom,
        final(st).border_left == old(st).border_left,
        final(st).column_gap == old(st).column_gap,
        final(st).row_gap == old(st).row_gap,
        final(st).grid_column_start == old(st).grid_column_start,
        final(st).grid_column_end == old(st).grid_column_end,
        final(st).grid_row_start == old(st).grid_row_start,
        final(st).grid_row_end == old(st).grid_row_end,
        final(st).grid_template_columns == old(st).grid_template_columns,
        final(st).grid_template_rows == old(st).grid_template_rows,
        final(st).grid_auto_columns == old(st).grid_auto_columns,
        final(st).grid_auto_rows == old(st).grid_auto_rows,
{
    if let Some(s) = &input.margin_left {
        let b = s.as_str().as_bytes();
        st.margin_left = parse_lpa_range(b, 0, b.len());
    }
    if let Some(s) = &input.inset_top {
        let b = s.as_str().as_bytes();
        st.inset_top = parse_lpa_range(b, 0, b.len());
    }
    if let Some(s) = &input.inset_right {
        let b = s.as_str().as_bytes();
        st.inset_right = parse_lpa_range(b, 0, b.len());
    }
    if let Some(s) = &input.inset_bottom {
        let b = s.as_str().as_bytes();
        st.inset_bottom = parse_lpa_range(b, 0, b.len());
    }
    if let Some(s) = &input.inset_left {
        let b = s.as_str().as_bytes();
        st.inset_left = parse_lpa_range(b, 0, b.len());
    }
}

/// Apply a group of grammar-valued members over the record.
fn convert_value_fields_3(input: &StyleInput, st: &mut StyleRecord)
    ensures
        final(st).padding_top == (match input.padding_top {
            Some(s) => spec_parse_lp(sbytes(s), 0, sbytes(s).len() as int),
            None => old(st).padding_top,
        }),
        final(st).padding_right == (match input.padding_right {
            Some(s) => spec_parse_lp(sbytes(s), 0, sbytes(s).len() as int),
            None => old(st).padding_right,
        }),
        final(st).padding_bottom == (match input.padding_bottom {
            Some(s) => spec_parse_lp(sbytes(s), 0, sbytes(s).len() as int),
            None => old(st).padding_bottom,
        }),
        final(st).padding_left == (match input.padding_left {
            Some(s) => spec_parse_lp(sbytes(s), 0, sbytes(s).len() as int),
            None => old(st).padding_left,
        }),
        final(st).border_top == (match input.border_top {
            Some(s) => spec_parse_lp(sbytes(s), 0, sbytes(s).len() as int),
            None => old(st).border_top,
        }),
        final(st).display == old(st).display,
        final(st).position == old(st).position,
        final(st).overflow_x == old(st).overflow_x,
        final(st).overflow_y == old(st).overflow_y,
        final(st).flex_direction == old(st).flex_direction,
        final(st).flex_wrap == old(st).flex_wrap,
        final(st).justify_content == old(st).justify_content,
        final(st).justify_items == old(st).justify_items,
        final(st).align_items == old(st).align_items,
        final(st).align_content == old(st).align_content,
        final(st).align_self == old(st).align_self,
        final(st).justify_self == old(st).justify_self,
        final(st).grid_auto_flow == old(st).grid_auto_flow,
        final(st).flex_grow == old(st).flex_grow,
        final(st).flex_shrink == old(st).flex_shrink,
        final(st).aspect_ratio == old(st).aspect_ratio,
        final(st).width == old(st).width,
        final(st).height == old(st).height,
        final(st).min_width == old(st).min_width,
        final(st).min_height == old(st).min_height,
        final(st).max_width == old(st).max_width,
        final(st).max_height == old(st).max_height,
        final(st).flex_basis == old(st).flex_basis,
        final(st).margin_top == old(st).margin_top,
        final(st).margin_right == old(st).margin_right,
        final(st).margin_bottom == old(st).margin_bottom,
        final(st).margin_left == old(st).margin_left,
        final(st).inset_top == old(st).inset_top,
        final(st).inset_right == old(st).inset_right,
        final(st).inset_bottom == old(st).inset_bottom,
        final(st).inset_left == old(st).inset_left,
        final(st).border_right == old(st).border_right,
        final(st).border_bottom == old(st).border_bottom,
        final(st).border_left == old(st).border_left,
        final(st).column_gap == old(st).column_gap,
        final(st).row_gap == old(st).row_gap,
        final(st).grid_column_start == old(st).grid_column_start,
        final(st).grid_column_end == old(st).grid_column_end,
        final(st).grid_row_start == old(st).grid_row_start,
        final(st).grid_row_end == old(st).grid_row_end,
        final(st).grid_template_columns == old(st).grid_template_columns,
        final(st).grid_template_rows == old(st).grid_template_rows,
        final(st).grid_auto_columns == old(st).grid_auto_columns,
        final(st).grid_auto_rows == old(st).grid_auto_rows,
{
    if let Some(s) = &input.padding_top {
        let b = s.as_str().as_bytes();
        st.padding_top = parse_lp_range(b, 0, b.len());
    }
    if let Some(s) = &input.padding_right {
        let b = s.as_str().as_bytes();
        st.padding_right = parse_lp_range(b, 0, b.len());
    }
    if let Some(s) = &input.padding_bottom {
        let b = s.as_str().as_bytes();
        st.padding_bottom = parse_lp_range(b, 0, b.len());
    }
    if let Some(s) = &input.padding_left {
        let b = s.as_str().as_bytes();
        st.padding_left = parse_lp_range(b, 0, b.len());
    }
    if let Some(s) = &input.border_top {
        let b = s.as_str().as_bytes();
        st.border_top = parse_lp_range(b, 0, b.len());
    }
}

/// Apply a group of grammar-valued members over the record.
fn convert_value_fields_4(input: &StyleInput, st: &mut StyleRecord)
    ensures
        final(st).border_right == (match input.border_right {
            Some(s) => spec_parse_lp(sbytes(s), 0, sbytes(s).len() as int),
            None => old(st).border_right,
        }),
        final(st).border_bottom == (match input.border_bottom {
            Some(s) => spec_parse_lp(sbytes(s), 0, sbytes(s).len() as int),
            None => old(st).border_bottom,
        }),
        final(st).border_left == (match input.border_left {
            Some(s) => spec_parse_lp(sbytes(s), 0, sbytes(s).len() as int),
            None => old(st).border_left,
        }),
        final(st).column_gap == (match input.column_gap {
            Some(s) => spec_parse_lp(sbytes(s), 0, sbytes(s).len() as int),
            None => old(st).column_gap,
        }),
        final(st).row_gap == (match input.row_gap {
            Some(s) => spec_parse_lp(sbytes(s), 0, sbytes(s).len() as int),
            None => old(st).row_gap,
        }),
        final(st).display == old(st).display,
        final(st).position == old(st).position,
        final(st).overflow_x == old(st).overflow_x,
        final(st).overflow_y == old(st).overflow_y,
        final(st).flex_direction == old(st).flex_direction,
        final(st).flex_wrap == old(st).flex_wrap,
        final(st).justify_content == old(st).justify_content,
        final(st).justify_items == old(st).justify_items,
        final(st).align_items == old(st).align_items,
        final(st).align_content == old(st).align_content,
        final(st).align_self == old(st).align_self,
        final(st).justify_self == old(st).justify_self,
        final(st).grid_auto_flow == old(st).grid_auto_flow,
        final(st).flex_grow == old(st).flex_grow,
        final(st).flex_shrink == old(st).flex_shrink,
        final(st).aspect_ratio == old(st).aspect_ratio,
        final(st).width == old(st).width,
        final(st).height == old(st).height,
        final(st).min_width == old(st).min_width,
        final(st).min_height == old(st).min_height,
        final(st).max_width == old(st).max_width,
        final(st).max_height == old(st).max_height,
        final(st).flex_basis == old(st).flex_basis,
        final(st).margin_top == old(st).margin_top,
        final(st).margin_right == old(st).margin_right,
        final(st).margin_bottom == old(st).margin_bottom,
        final(st).margin_left == old(st).margin_left,
        final(st).inset_top == old(st).inset_top,
        final(st).inset_right == old(st).inset_right,
        final(st).inset_bottom == old(st).inset_bottom,
        final(st).inset_left == old(st).inset_left,
        final(st).padding_top == old(st).padding_top,
        final(st).padding_right == old(st).padding_right,
        final(st).padding_bottom == old(st).padding_bottom,
        final(st).padding_left == old(st).padding_left,
        final(st).border_top == old(st).border_top,
        final(st).grid_column_start == old(st).grid_column_start,
        final(st).grid_column_end == old(st).grid_column_end,
        final(st).grid_row_start == old(st).grid_row_start,
        final(st).grid_row_end == old(st).grid_row_end,
        final(st).grid_template_columns == old(st).grid_template_columns,
        final(st).grid_template_rows == old(st).grid_template_rows,
        final(st).grid_auto_columns == old(st).grid_auto_columns,
        final(st).grid_auto_rows == old(st).grid_auto_rows,
{
    if let Some(s) = &input.border_right {
        let b = s.as_str().as_bytes();
        st.border_right = parse_lp_range(b, 0, b.len());
    }
    if let Some(s) = &input.border_bottom {
        let b = s.as_str().as_bytes();
        st.border_bottom = parse_lp_range(b, 0, b.len());
    }
    if let Some(s) = &input.border_left {
        let b = s.as_str().as_bytes();
        st.border_left = parse_lp_range(b, 0, b.len());
    }
    if let Some(s) = &input.column_gap {
        let b = s.as_str().as_bytes();
        st.column_gap = parse_lp_range(b, 0, b.len());
    }
    if let Some(s) = &input.row_gap {
        let b = s.as_str().as_bytes();
        st.row_gap = parse_lp_range(b, 0, b.len());
    }
}

/// Apply a group of grammar-valued members over the record.
fn convert_value_fields_5(input: &StyleInput, st: &mut StyleRecord)
    ensures
        final(st).grid_column_start == (match input.grid_column_start {
            Some(s) => spec_parse_placement(sbytes(s), 0, sbytes(s).len() as int),
            None => old(st).grid_column_start,
        }),
        final(st).grid_column_end == (match input.grid_column_end {
            Some(s) => spec_parse_placement(sbytes(s), 0, sbytes(s).len() as int),
            None => old(st).grid_column_end,
        }),
        final(st).grid_row_start == (match input.grid_row_start {
            Some(s) => spec_parse_placement(sbytes(s), 0, sbytes(s).len() as int),
            None => old(st).grid_row_start,
        }),
        final(st).grid_row_end == (match input.grid_row_end {
            Some(s) => spec_parse_placement(sbytes(s), 0, sbytes(s).len() as int),
            None => old(st).grid_row_end,
        }),
        final(st).display == old(st).display,
        final(st).position == old(st).position,
        final(st).overflow_x == old(st).overflow_x,
        final(st).overflow_y == old(st).overflow_y,
        final(st).flex_direction == old(st).flex_direction,
        final(st).flex_wrap == old(st).flex_wrap,
        final(st).justify_content == old(st).justify_content,
        final(st).justify_items == old(st).justify_items,
        final(st).align_items == old(st).align_items,
        final(st).align_content == old(st).align_content,
        final(st).align_self == old(st).align_self,
        final(st).justify_self == old(st).justify_self,
        final(st).grid_auto_flow == old(st).grid_auto_flow,
        final(st).flex_grow == old(st).flex_grow,
        final(st).flex_shrink == old(st).flex_shrink,
        final(st).aspect_ratio == old(st).aspect_ratio,
        final(st).width == old(st).width,
        final(st).height == old(st).height,
        final(st).min_width == old(st).min_width,
        final(st).min_height == old(st).min_height,
        final(st).max_width == old(st).max_width,
        final(st).max_height == old(st).max_height,
        final(st).flex_basis == old(st).flex_basis,
        final(st).margin_top == old(st).margin_top,
        final(st).margin_right == old(st).margin_right,
        final(st).margin_bottom == old(st).margin_bottom,
        final(st).margin_left == old(st).margin_left,
        final(st).inset_top == old(st).inset_top,
        final(st).inset_right == old(st).inset_right,
        final(st).inset_bottom == old(st).inset_bottom,
        final(st).inset_left == old(st).inset_left,
        final(st).padding_top == old(st).padding_top,
        final(st).padding_right == old(st).padding_right,
        final(st).padding_bottom == old(st).padding_bottom,
        final(st).padding_left == old(st).padding_left,
        final(st).border_top == old(st).border_top,
        final(st).border_right == old(st).border_right,
        final(st).border_bottom == old(st).border_bottom,
        final(st).border_left == old(st).border_left,
        final(st).column_gap == old(st).column_gap,
        final(st).row_gap == old(st).row_gap,
        final(st).grid_template_columns == old(st).grid_template_columns,
        final(st).grid_template_rows == old(st).grid_template_rows,
        final(st).grid_auto_columns == old(st).grid_auto_columns,
        final(st).grid_auto_rows == old(st).grid_auto_rows,
{
    if let Some(s) = &input.grid_column_start {
        let b = s.as_str().as_bytes();
        st.grid_column_start = parse_placement_range(b, 0, b.len());
    }
    if let Some(s) = &input.grid_column_end {
        let b = s.as_str().as_bytes();
        st.grid_column_end = parse_placement_range(b, 0, b.len());
    }
    if let Some(s) = &input.grid_row_start {
        let b = s.as_str().as_bytes();
        st.grid_row_start = parse_placement_range(b, 0, b.len());
    }
    if let Some(s) = &input.grid_row_end {
        let b = s.as_str().as_bytes();
        st.grid_row_end = parse_placement_range(b, 0, b.len());
    }
}

/// Apply the grid track-list members of an input over a record.
fn convert_track_fields(input: &StyleInput, st: &mut StyleRecord)
    ensures
        templates_model(final(st).grid_template_columns@) == (match input.grid_template_columns {
            Some(l) => spec_templates_of(strs_bytes(l@)),
            None => templates_model(old(st).grid_template_columns@),
        }),
        templates_model(final(st).grid_template_rows@) == (match input.grid_template_rows {
            Some(l) => spec_templates_of(strs_bytes(l@)),
            None => templates_model(old(st).grid_template_rows@),
        }),
        final(st).grid_auto_columns@ == (match input.grid_auto_columns {
            Some(l) => spec_sizings_of(strs_bytes(l@)),
            None => old(st).grid_auto_columns@,
        }),
        final(st).grid_auto_rows@ == (match input.grid_auto_rows {
            Some(l) => spec_sizings_of(strs_bytes(l@)),
            None => old(st).grid_auto_rows@,
        }),
        final(st).display == old(st).display,
        final(st).position == old(st).position,
        final(st).overflow_x == old(st).overflow_x,
        final(st).overflow_y == old(st).overflow_y,
        final(st).flex_direction == old(st).flex_direction,
        final(st).flex_wrap == old(st).flex_wrap,
        final(st).justify_content == old(st).justify_content,
        final(st).justify_items == old(st).justify_items,
        final(st).align_items == old(st).align_items,
        final(st).align_content == old(st).align_content,
        final(st).align_self == old(st).align_self,
        final(st).justify_self == old(st).justify_self,
        final(st).grid_auto_flow == old(st).grid_auto_flow,
        final(st).flex_grow == old(st).flex_grow,
        final(st).flex_shrink == old(st).flex_shrink,
        final(st).aspect_ratio == old(st).aspect_ratio,
        final(st).width == old(st).width,
        final(st).height == old(st).height,
        final(st).min_width == old(st).min_width,
        final(st).min_height == old(st).min_height,
        final(st).max_width == old(st).max_width,
        final(st).max_height == old(st).max_height,
        final(st).flex_basis == old(st).flex_basis,
        final(st).margin_top == old(st).margin_top,
        final(st).margin_right == old(st).margin_right,
        final(st).margin_bottom == old(st).margin_bottom,
        final(st).margin_left == old(st).margin_left,
        final(st).inset_top == old(st).inset_top,
        final(st).inset_right == old(st).inset_right,
        final(st).inset_bottom == old(st).inset_bottom,
        final(st).inset_left == old(st).inset_left,
        final(st).padding_top == old(st).padding_top,
        final(st).padding_right == old(st).padding_right,
        final(st).padding_bottom == old(st).padding_bottom,
        final(st).padding_left == old(st).padding_left,
        final(st).border_top == old(st).border_top,
        final(st).border_right == old(st).border_right,
        final(st).border_bottom == old(st).border_bottom,
        final(st).border_left == old(st).border_left,
        final(st).column_gap == old(st).column_gap,
        final(st).row_gap == old(st).row_gap,
        final(st).grid_column_start == old(st).grid_column_start,
        final(st).grid_column_end == old(st).grid_column_end,
        final(st).grid_row_start == old(st).grid_row_start,
        final(st).grid_row_end == old(st).grid_row_end,
{
    if let Some(l) = &input.grid_template_columns {
        st.grid_template_columns = parse_templates(l);
    }
    if let Some(l) = &input.grid_template_rows {
        st.grid_template_rows = parse_templates(l);
    }
    if let Some(l) = &input.grid_auto_columns {
        st.grid_auto_columns = parse_sizings(l);
    }
    if let Some(l) = &input.grid_auto_rows {
        st.grid_auto_rows = parse_sizings(l);
    }
}

/// Parse a grid auto-flow keyword.
pub fn parse_grid_auto_flow_kw(b: &[u8]) -> (r: GridAutoFlow)
    ensures
        r == spec_grid_auto_flow_kw(b@),
{
    proof {
        reveal(spec_grid_auto_flow_kw);
    }
    let col: [u8; 6] = [99, 111, 108, 117, 109, 110];
    let rd1: [u8; 9] = [114, 111, 119, 32, 100, 101, 110, 115, 101];
    let rd2: [u8; 9] = [114, 111, 119, 45, 100, 101, 110, 115, 101];
    let cd1: [u8; 12] = [99, 111, 108, 117, 109, 110, 32, 100, 101, 110, 115, 101];
    let cd2: [u8; 12] = [99, 111, 108, 117, 109, 110, 45, 100, 101, 110, 115, 101];
    let n = b.len();
    if range_eq(b, 0, n, col.as_slice()) {
        GridAutoFlow::Column
    } else if range_eq(b, 0, n, rd1.as_slice()) || range_eq(b, 0, n, rd2.as_slice()) {
        GridAutoFlow::RowDense
    } else if range_eq(b, 0, n, cd1.as_slice()) || range_eq(b, 0, n, cd2.as_slice()) {
        GridAutoFlow::ColumnDense
    } else {
        GridAutoFlow::Row
    }
}

} // verus!
