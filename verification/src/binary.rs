//! Binary wire-format decoder.
//!
//! A batch of style nodes arrives as one flat byte buffer: a fixed header
//! (magic `TAFF`, version, node count), then per node a presence bitmap,
//! child indices, an optional UTF-8 side-channel (grid track lists as a
//! small JSON object), and the present fields in ascending bit-position
//! order, each with a type-fixed byte width. The decoder makes a single
//! forward pass and aborts the whole batch on any malformed input.

use crate::grammar::{
    parse_template_range, parse_track_sizing_range, spec_parse_template, spec_parse_track_sizing,
};
use crate::scalar::{scalar_from_bits, scalar_of_bits};
use crate::style::{
    base_model, templates_model, AlignContent, AlignItems, AlignSelf, DecodedNode, Dimension,
    Display,
    FlexDirection, FlexWrap, GridAutoFlow, GridPlacement, JustifyContent, Lp, Lpa, Overflow,
    Position, StyleModel, StyleRecord, TrackSizing, TrackTemplate, TrackTemplateSpec,
};
use crate::jsonv::{sideband_member, sideband_member_ok};
use vstd::prelude::*;
use vstd::string::{StringExecFns, StringSliceAdditionalSpecFns};

verus! {

/// Why a binary batch was rejected. The whole batch is abandoned: no
/// partial result is handed out.
#[derive(Clone, Copy, Debug, PartialEq, Eq, Structural)]
pub enum DecodeError {
    /// The buffer ends before the four magic bytes.
    ShortMagic,
    /// The magic bytes are not `TAFF`; the found bytes are carried.
    BadMagic { b0: u8, b1: u8, b2: u8, b3: u8 },
    /// The buffer ends before the version byte.
    ShortVersion,
    /// The version byte is not the supported version; carried along.
    BadVersion { version: u8 },
    /// The buffer ends before the node count.
    ShortCount,
    /// The buffer ends inside node `node`: `need` bytes were wanted at
    /// byte `offset` but only `have` remain.
    Truncated { node: usize, offset: usize, need: usize, have: usize },
    /// The side-channel bytes of node `node` are not valid UTF-8.
    SidebandUtf8 { node: usize },
    /// The side-channel text of node `node` is not the expected JSON shape.
    SidebandJson { node: usize },
}


/// The character of one decimal digit.
pub open spec fn digit_char(d: int) -> char {
    if d == 0 {
        '0'
    } else if d == 1 {
        '1'
    } else if d == 2 {
        '2'
    } else if d == 3 {
        '3'
    } else if d == 4 {
        '4'
    } else if d == 5 {
        '5'
    } else if d == 6 {
        '6'
    } else if d == 7 {
        '7'
    } else if d == 8 {
        '8'
    } else {
        '9'
    }
}

/// The decimal rendering of a non-negative value.
pub open spec fn dec_chars(v: int) -> Seq<char>
    decreases v,
{
    if v < 10 {
        seq![digit_char(v)]
    } else {
        dec_chars(v / 10).push(digit_char(v % 10))
    }
}

/// Append one decimal digit.
fn append_digit(out: &mut String, d: u8)
    requires
        d <= 9,
    ensures
        final(out)@ == old(out)@ + seq![digit_char(d as int)],
{
    if d == 0 {
        out.append("0");
        proof {
            reveal_strlit("0");
            assert(out@ =~= old(out)@ + seq![digit_char(d as int)]);
        }
    } else if d == 1 {
        out.append("1");
        proof {
            reveal_strlit("1");
            assert(out@ =~= old(out)@ + seq![digit_char(d as int)]);
        }
    } else if d == 2 {
        out.append("2");
        proof {
            reveal_strlit("2");
            assert(out@ =~= old(out)@ + seq![digit_char(d as int)]);
        }
    } else if d == 3 {
        out.append("3");
        proof {
            reveal_strlit("3");
            assert(out@ =~= old(out)@ + seq![digit_char(d as int)]);
        }
    } else if d == 4 {
        out.append("4");
        proof {
            reveal_strlit("4");
            assert(out@ =~= old(out)@ + seq![digit_char(d as int)]);
        }
    } else if d == 5 {
        out.append("5");
        proof {
            reveal_strlit("5");
            assert(out@ =~= old(out)@ + seq![digit_char(d as int)]);
        }
    } else if d == 6 {
        out.append("6");
        proof {
            reveal_strlit("6");
            assert(out@ =~= old(out)@ + seq![digit_char(d as int)]);
        }
    } else if d == 7 {
        out.append("7");
        proof {
            reveal_strlit("7");
            assert(out@ =~= old(out)@ + seq![digit_char(d as int)]);
        }
    } else if d == 8 {
        out.append("8");
        proof {
            reveal_strlit("8");
            assert(out@ =~= old(out)@ + seq![digit_char(d as int)]);
        }
    } else {
        out.append("9");
        proof {
            reveal_strlit("9");
            assert(out@ =~= old(out)@ + seq![digit_char(d as int)]);
        }
    }
}

/// Append a value's decimal digits.
fn append_number(out: &mut String, v: usize)
    ensures
        final(out)@ == old(out)@ + dec_chars(v as int),
    decreases v,
{
    if v >= 10 {
        proof {
            vstd::arithmetic::div_mod::lemma_div_is_ordered_by_denominator(v as int, 1, 10);
            vstd::arithmetic::div_mod::lemma_div_basics(v as int);
            assert(v as int / 10 < v as int) by (nonlinear_arith)
                requires
                    v >= 10,
            ;
        }
        append_number(out, v / 10);
        append_digit(out, (v % 10) as u8);
        proof {
            assert(out@ =~= old(out)@ + dec_chars(v as int));
        }
    } else {
        append_digit(out, v as u8);
    }
}

/// The text [`DecodeError::message`] renders: the failure in words, with
/// the position numbers the variant carries.
pub open spec fn spec_message(e: DecodeError) -> Seq<char> {
    match e {
        DecodeError::ShortMagic => "binary decode: buffer too short for magic"@,
        DecodeError::BadMagic { .. } => "binary decode: invalid magic (expected TAFF)"@,
        DecodeError::ShortVersion => "binary decode: buffer too short for version"@,
        DecodeError::BadVersion { version } => "binary decode: unsupported version "@ + dec_chars(
            version as int,
        ) + " (expected 1)"@,
        DecodeError::ShortCount => "binary decode: buffer too short for node count"@,
        DecodeError::Truncated { node, offset, need, have } => "binary decode: node "@ + dec_chars(
            node as int,
        ) + ": unexpected end of buffer at byte "@ + dec_chars(offset as int) + ": need "@
            + dec_chars(need as int) + " bytes, have "@ + dec_chars(have as int),
        DecodeError::SidebandUtf8 { node } => "binary decode: node "@ + dec_chars(node as int)
            + ": side-channel text is not valid UTF-8"@,
        DecodeError::SidebandJson { node } => "binary decode: node "@ + dec_chars(node as int)
            + ": side-channel text is not the expected JSON shape"@,
    }
}

impl DecodeError {
    /// A description of the failure, position-annotated from the
    /// variant's fields.
    pub fn message(&self) -> (r: String)
        ensures
            r@ == spec_message(*self),
    {
        let r: String = match self {
            DecodeError::ShortMagic => "binary decode: buffer too short for magic".to_owned(),
            DecodeError::BadMagic { .. } => "binary decode: invalid magic (expected TAFF)"
                .to_owned(),
            DecodeError::ShortVersion => "binary decode: buffer too short for version".to_owned(),
            DecodeError::BadVersion { version } => {
                let mut out = "binary decode: unsupported version ".to_owned();
                append_number(&mut out, *version as usize);
                out.append(" (expected 1)");
                out
            },
            DecodeError::ShortCount => "binary decode: buffer too short for node count"
                .to_owned(),
            DecodeError::Truncated { node, offset, need, have } => {
                let mut out = "binary decode: node ".to_owned();
                append_number(&mut out, *node);
                out.append(": unexpected end of buffer at byte ");
                append_number(&mut out, *offset);
                out.append(": need ");
                append_number(&mut out, *need);
                out.append(" bytes, have ");
                append_number(&mut out, *have);
                out
            },
            DecodeError::SidebandUtf8 { node } => {
                let mut out = "binary decode: node ".to_owned();
                append_number(&mut out, *node);
                out.append(": side-channel text is not valid UTF-8");
                out
            },
            DecodeError::SidebandJson { node } => {
                let mut out = "binary decode: node ".to_owned();
                append_number(&mut out, *node);
                out.append(": side-channel text is not the expected JSON shape");
                out
            },
        };
        proof {
            assert(r@ =~= spec_message(*self));
        }
        r
    }
}

/// The u16 at byte position `p`, little endian.
pub open spec fn le16(s: Seq<u8>, p: int) -> int {
    s[p] + 256 * s[p + 1]
}

/// The u32 at byte position `p`, little endian.
pub open spec fn le32(s: Seq<u8>, p: int) -> int {
    s[p] + 256 * s[p + 1] + 65536 * s[p + 2] + 16777216 * s[p + 3]
}

/// The u64 at byte position `p`, little endian.
pub open spec fn le64(s: Seq<u8>, p: int) -> int {
    le32(s, p) + 0x1_0000_0000 * le32(s, p + 4)
}

/// A byte-slice cursor that tracks the read position.
pub struct Cursor<'a> {
    data: &'a [u8],
    pos: usize,
}

impl<'a> Cursor<'a> {
    /// The bytes being read.
    pub closed spec fn bytes(self) -> Seq<u8> {
        self.data@
    }

    /// The current read position.
    pub closed spec fn at(self) -> int {
        self.pos as int
    }

    /// The position never passes the end of the buffer.
    pub closed spec fn wf(self) -> bool {
        self.pos <= self.data@.len()
    }

    /// Start reading at the beginning of `data`.
    pub fn new(data: &'a [u8]) -> (c: Cursor<'a>)
        ensures
            c.bytes() == data@,
            c.at() == 0,
            c.wf(),
    {
        Cursor { data, pos: 0 }
    }

    /// Number of bytes remaining.
    pub fn remaining(&self) -> (r: usize)
        requires
            self.wf(),
        ensures
            r == self.bytes().len() - self.at(),
    {
        self.data.len() - self.pos
    }

    /// The current read position, for error reports.
    pub fn position(&self) -> (r: usize)
        ensures
            r == self.at(),
    {
        self.pos
    }

    /// Read one byte.
    pub fn read_u8(&mut self) -> (r: Option<u8>)
        requires
            old(self).wf(),
        ensures
            final(self).wf(),
            final(self).bytes() == old(self).bytes(),
            old(self).at() + 1 <= old(self).bytes().len() ==> {
                &&& r == Some(old(self).bytes()[old(self).at()])
                &&& final(self).at() == old(self).at() + 1
            },
            old(self).at() + 1 > old(self).bytes().len() ==> r is None && *final(self) == *old(
                self,
            ),
    {
        if self.pos < self.data.len() {
            let b = self.data[self.pos];
            self.pos = self.pos + 1;
            Some(b)
        } else {
            None
        }
    }

    /// Read a little-endian u16.
    pub fn read_u16_le(&mut self) -> (r: Option<u16>)
        requires
            old(self).wf(),
        ensures
            final(self).wf(),
            final(self).bytes() == old(self).bytes(),
            old(self).at() + 2 <= old(self).bytes().len() ==> {
                &&& r matches Some(v) && v == le16(old(self).bytes(), old(self).at())
                &&& final(self).at() == old(self).at() + 2
            },
            old(self).at() + 2 > old(self).bytes().len() ==> r is None && *final(self) == *old(
                self,
            ),
    {
        if self.data.len() - self.pos >= 2 {
            let b0 = self.data[self.pos] as u16;
            let b1 = self.data[self.pos + 1] as u16;
            self.pos = self.pos + 2;
            Some(b0 + 256 * b1)
        } else {
            None
        }
    }

    /// Read a little-endian u32.
    pub fn read_u32_le(&mut self) -> (r: Option<u32>)
        requires
            old(self).wf(),
        ensures
            final(self).wf(),
            final(self).bytes() == old(self).bytes(),
            old(self).at() + 4 <= old(self).bytes().len() ==> {
                &&& r matches Some(v) && v == le32(old(self).bytes(), old(self).at())
                &&& final(self).at() == old(self).at() + 4
            },
            old(self).at() + 4 > old(self).bytes().len() ==> r is None && *final(self) == *old(
                self,
            ),
    {
        if self.data.len() - self.pos >= 4 {
            let b0 = self.data[self.pos] as u32;
            let b1 = self.data[self.pos + 1] as u32;
            let b2 = self.data[self.pos + 2] as u32;
            let b3 = self.data[self.pos + 3] as u32;
            self.pos = self.pos + 4;
            Some(b0 + 256 * b1 + 65536 * b2 + 16777216 * b3)
        } else {
            None
        }
    }

    /// Read a little-endian u64.
    pub fn read_u64_le(&mut self) -> (r: Option<u64>)
        requires
            old(self).wf(),
        ensures
            final(self).wf(),
            final(self).bytes() == old(self).bytes(),
            old(self).at() + 8 <= old(self).bytes().len() ==> {
                &&& r matches Some(v) && v == le64(old(self).bytes(), old(self).at())
                &&& final(self).at() == old(self).at() + 8
            },
            old(self).at() + 8 > old(self).bytes().len() ==> r is None && *final(self) == *old(
                self,
            ),
    {
        if self.data.len() - self.pos >= 8 {
            let lo = match self.read_u32_le() {
                Some(v) => v,
                None => 0,
            };
            let hi = match self.read_u32_le() {
                Some(v) => v,
                None => 0,
            };
            Some((lo as u64) + 0x1_0000_0000u64 * (hi as u64))
        } else {
            None
        }
    }

    /// Read a little-endian i16 (two's complement).
    pub fn read_i16_le(&mut self) -> (r: Option<i16>)
        requires
            old(self).wf(),
        ensures
            final(self).wf(),
            final(self).bytes() == old(self).bytes(),
            old(self).at() + 2 <= old(self).bytes().len() ==> {
                &&& r matches Some(v) && v == i16_of_raw(le16(old(self).bytes(), old(self).at()))
                &&& final(self).at() == old(self).at() + 2
            },
            old(self).at() + 2 > old(self).bytes().len() ==> r is None && *final(self) == *old(
                self,
            ),
    {
        match self.read_u16_le() {
            Some(v) => {
                if v >= 32768 {
                    Some(((v as i32) - 65536) as i16)
                } else {
                    Some(v as i16)
                }
            },
            None => None,
        }
    }

    /// Borrow the bytes in `[lo, hi)`.
    pub fn sub(&self, lo: usize, hi: usize) -> (r: &'a [u8])
        requires
            lo <= hi <= self.bytes().len(),
        ensures
            r@ == self.bytes().subrange(lo as int, hi as int),
    {
        &self.data[lo..hi]
    }

    /// Skip `n` bytes, reporting whether they were there.
    pub fn skip(&mut self, n: usize) -> (r: bool)
        requires
            old(self).wf(),
        ensures
            final(self).wf(),
            final(self).bytes() == old(self).bytes(),
            old(self).at() + n <= old(self).bytes().len() ==> r && final(self).at() == old(
                self,
            ).at() + n,
            old(self).at() + n > old(self).bytes().len() ==> !r && *final(self) == *old(self),
    {
        if n <= self.data.len() - self.pos {
            self.pos = self.pos + n;
            true
        } else {
            false
        }
    }
}

/// The signed value of a raw 16-bit pattern.
pub open spec fn i16_of_raw(raw: int) -> int {
    if raw >= 32768 {
        raw - 65536
    } else {
        raw
    }
}

/// Display from its wire code.
pub open spec fn spec_display_code(v: u8) -> Display {
    if v == 1 {
        Display::Grid
    } else if v == 2 {
        Display::Block
    } else if v == 3 {
        Display::NoneDisplay
    } else {
        Display::Flex
    }
}

/// Position from its wire code.
pub open spec fn spec_position_code(v: u8) -> Position {
    if v == 1 {
        Position::Absolute
    } else {
        Position::Relative
    }
}

/// Overflow from its wire code.
pub open spec fn spec_overflow_code(v: u8) -> Overflow {
    if v == 1 {
        Overflow::Hidden
    } else if v == 2 {
        Overflow::Clip
    } else if v == 3 {
        Overflow::Scroll
    } else {
        Overflow::Visible
    }
}

/// Flex direction from its wire code.
pub open spec fn spec_flex_direction_code(v: u8) -> FlexDirection {
    if v == 1 {
        FlexDirection::Column
    } else if v == 2 {
        FlexDirection::RowReverse
    } else if v == 3 {
        FlexDirection::ColumnReverse
    } else {
        FlexDirection::Row
    }
}

/// Flex wrap from its wire code.
pub open spec fn spec_flex_wrap_code(v: u8) -> FlexWrap {
    if v == 1 {
        FlexWrap::Wrap
    } else if v == 2 {
        FlexWrap::WrapReverse
    } else {
        FlexWrap::NoWrap
    }
}

/// Main-axis distribution from its wire code.
pub open spec fn spec_justify_content_code(v: u8) -> JustifyContent {
    if v == 1 {
        JustifyContent::End
    } else if v == 2 {
        JustifyContent::Center
    } else if v == 3 {
        JustifyContent::SpaceBetween
    } else if v == 4 {
        JustifyContent::SpaceAround
    } else if v == 5 {
        JustifyContent::SpaceEvenly
    } else if v == 6 {
        JustifyContent::Stretch
    } else {
        JustifyContent::Start
    }
}

/// Item alignment from its wire code.
pub open spec fn spec_align_items_code(v: u8) -> AlignItems {
    if v == 0 {
        AlignItems::Start
    } else if v == 1 {
        AlignItems::End
    } else if v == 2 {
        AlignItems::Center
    } else if v == 4 {
        AlignItems::Baseline
    } else {
        AlignItems::Stretch
    }
}

/// Content alignment from its wire code.
pub open spec fn spec_align_content_code(v: u8) -> AlignContent {
    if v == 0 {
        AlignContent::Start
    } else if v == 1 {
        AlignContent::End
    } else if v == 2 {
        AlignContent::Center
    } else if v == 4 {
        AlignContent::SpaceBetween
    } else if v == 5 {
        AlignContent::SpaceAround
    } else if v == 6 {
        AlignContent::SpaceEvenly
    } else {
        AlignContent::Stretch
    }
}

/// Self alignment from its wire code; zero means `auto`, i.e. absent.
pub open spec fn spec_align_self_code(v: u8) -> Option<AlignSelf> {
    if v == 1 {
        Some(AlignSelf::Start)
    } else if v == 2 {
        Some(AlignSelf::End)
    } else if v == 3 {
        Some(AlignSelf::Center)
    } else if v == 4 {
        Some(AlignSelf::Stretch)
    } else if v == 5 {
        Some(AlignSelf::Baseline)
    } else {
        None
    }
}

/// Grid auto-flow from its wire code.
pub open spec fn spec_grid_auto_flow_code(v: u8) -> GridAutoFlow {
    if v == 1 {
        GridAutoFlow::Column
    } else if v == 2 {
        GridAutoFlow::RowDense
    } else if v == 3 {
        GridAutoFlow::ColumnDense
    } else {
        GridAutoFlow::Row
    }
}

/// A dimension as stored at byte `p`: tag byte, then scalar bits.
pub open spec fn spec_dimension_at(s: Seq<u8>, p: int) -> Dimension {
    let tag = s[p];
    let bits = le32(s, p + 1) as u32;
    if tag == 1 {
        Dimension::Length(scalar_of_bits(bits) as i64)
    } else if tag == 2 {
        Dimension::Percent(scalar_of_bits(bits) as i64)
    } else {
        Dimension::Auto
    }
}

/// A margin or inset value as stored at byte `p`.
pub open spec fn spec_lpa_at(s: Seq<u8>, p: int) -> Lpa {
    let tag = s[p];
    let bits = le32(s, p + 1) as u32;
    if tag == 1 {
        Lpa::Length(scalar_of_bits(bits) as i64)
    } else if tag == 2 {
        Lpa::Percent(scalar_of_bits(bits) as i64)
    } else {
        Lpa::Auto
    }
}

/// A padding, border or gap value as stored at byte `p`.
pub open spec fn spec_lp_at(s: Seq<u8>, p: int) -> Lp {
    let tag = s[p];
    let bits = le32(s, p + 1) as u32;
    if tag == 1 {
        Lp::Length(scalar_of_bits(bits) as i64)
    } else if tag == 2 {
        Lp::Percent(scalar_of_bits(bits) as i64)
    } else {
        Lp::Length(0)
    }
}

/// A grid placement as stored at byte `p`: tag byte, then a raw 16-bit
/// value read as a signed line index or an unsigned span count.
pub open spec fn spec_placement_at(s: Seq<u8>, p: int) -> GridPlacement {
    let tag = s[p];
    let raw = le16(s, p + 1);
    if tag == 1 {
        GridPlacement::Line(i16_of_raw(raw) as i16)
    } else if tag == 2 {
        GridPlacement::Span(raw as u16)
    } else {
        GridPlacement::Auto
    }
}

/// Whether presence bit `id` is set.
pub open spec fn bit_set(bitmap: u64, id: int) -> bool {
    0 <= id < 64 && ((bitmap >> (id as u64)) & 1) == 1
}

/// Byte width of field `id` in the wire format.
pub open spec fn spec_field_width(id: int) -> int {
    if id <= 12 {
        1
    } else if id <= 15 {
        4
    } else if id <= 40 {
        5
    } else {
        3
    }
}

/// Apply an enum field (ids 0 through 12) with wire code `v`.
pub open spec fn spec_apply_enum(st: StyleModel, id: int, v: u8) -> StyleModel {
    if id == 0 {
        StyleModel { display: spec_display_code(v), ..st }
    } else if id == 1 {
        StyleModel { position: spec_position_code(v), ..st }
    } else if id == 2 {
        StyleModel { overflow_x: spec_overflow_code(v), ..st }
    } else if id == 3 {
        StyleModel { overflow_y: spec_overflow_code(v), ..st }
    } else if id == 4 {
        StyleModel { flex_direction: spec_flex_direction_code(v), ..st }
    } else if id == 5 {
        StyleModel { flex_wrap: spec_flex_wrap_code(v), ..st }
    } else if id == 6 {
        StyleModel { justify_content: Some(spec_justify_content_code(v)), ..st }
    } else if id == 7 {
        StyleModel { justify_items: Some(spec_align_items_code(v)), ..st }
    } else if id == 8 {
        StyleModel { align_items: Some(spec_align_items_code(v)), ..st }
    } else if id == 9 {
        StyleModel { align_content: Some(spec_align_content_code(v)), ..st }
    } else if id == 10 {
        StyleModel { align_self: spec_align_self_code(v), ..st }
    } else if id == 11 {
        StyleModel { justify_self: spec_align_self_code(v), ..st }
    } else {
        StyleModel { grid_auto_flow: spec_grid_auto_flow_code(v), ..st }
    }
}

/// Apply a scalar field (ids 13 through 15) with value `m` thousandths.
pub open spec fn spec_apply_scalar(st: StyleModel, id: int, m: i64) -> StyleModel {
    if id == 13 {
        StyleModel { flex_grow: m, ..st }
    } else if id == 14 {
        StyleModel { flex_shrink: m, ..st }
    } else {
        StyleModel { aspect_ratio: Some(m), ..st }
    }
}

/// Apply a dimension field (ids 16 through 22).
pub open spec fn spec_apply_dim(st: StyleModel, id: int, d: Dimension) -> StyleModel {
    if id == 16 {
        StyleModel { width: d, ..st }
    } else if id == 17 {
        StyleModel { height: d, ..st }
    } else if id == 18 {
        StyleModel { min_width: d, ..st }
    } else if id == 19 {
        StyleModel { min_height: d, ..st }
    } else if id == 20 {
        StyleModel { max_width: d, ..st }
    } else if id == 21 {
        StyleModel { max_height: d, ..st }
    } else {
        StyleModel { flex_basis: d, ..st }
    }
}

/// Apply a margin or inset field (ids 23 through 30).
pub open spec fn spec_apply_lpa(st: StyleModel, id: int, d: Lpa) -> StyleModel {
    if id == 23 {
        StyleModel { margin_top: d, ..st }
    } else if id == 24 {
        StyleModel { margin_right: d, ..st }
    } else if id == 25 {
        StyleModel { margin_bottom: d, ..st }
    } else if id == 26 {
        StyleModel { margin_left: d, ..st }
    } else if id == 27 {
        StyleModel { inset_top: d, ..st }
    } else if id == 28 {
        StyleModel { inset_right: d, ..st }
    } else if id == 29 {
        StyleModel { inset_bottom: d, ..st }
    } else {
        StyleModel { inset_left: d, ..st }
    }
}

/// Apply a padding, border or gap field (ids 31 through 40).
pub open spec fn spec_apply_lp(st: StyleModel, id: int, d: Lp) -> StyleModel {
    if id == 31 {
        StyleModel { padding_top: d, ..st }
    } else if id == 32 {
        StyleModel { padding_right: d, ..st }
    } else if id == 33 {
        StyleModel { padding_bottom: d, ..st }
    } else if id == 34 {
        StyleModel { padding_left: d, ..st }
    } else if id == 35 {
        StyleModel { border_top: d, ..st }
    } else if id == 36 {
        StyleModel { border_right: d, ..st }
    } else if id == 37 {
        StyleModel { border_bottom: d, ..st }
    } else if id == 38 {
        StyleModel { border_left: d, ..st }
    } else if id == 39 {
        StyleModel { column_gap: d, ..st }
    } else {
        StyleModel { row_gap: d, ..st }
    }
}

/// Apply a grid placement field (ids 41 through 44).
pub open spec fn spec_apply_placement(st: StyleModel, id: int, d: GridPlacement) -> StyleModel {
    if id == 41 {
        StyleModel { grid_column_start: d, ..st }
    } else if id == 42 {
        StyleModel { grid_column_end: d, ..st }
    } else if id == 43 {
        StyleModel { grid_row_start: d, ..st }
    } else {
        StyleModel { grid_row_end: d, ..st }
    }
}

/// Apply the field with bit position `id`, whose bytes start at `p`.
pub open spec fn spec_apply_field(s: Seq<u8>, p: int, id: int, st: StyleModel) -> StyleModel {
    if id <= 12 {
        spec_apply_enum(st, id, s[p])
    } else if id <= 15 {
        spec_apply_scalar(st, id, scalar_of_bits(le32(s, p) as u32) as i64)
    } else if id <= 22 {
        spec_apply_dim(st, id, spec_dimension_at(s, p))
    } else if id <= 30 {
        spec_apply_lpa(st, id, spec_lpa_at(s, p))
    } else if id <= 40 {
        spec_apply_lp(st, id, spec_lp_at(s, p))
    } else {
        spec_apply_placement(st, id, spec_placement_at(s, p))
    }
}

/// Decode the present fields from bit position `id` on, reading at byte
/// `p`: the style they produce and the position after them, or nothing on
/// a truncated buffer.
pub open spec fn spec_decode_fields(
    s: Seq<u8>,
    bitmap: u64,
    id: int,
    p: int,
    st: StyleModel,
) -> Option<(StyleModel, int)>
    decreases 45 - id,
{
    if id < 0 || id >= 45 {
        Some((st, p))
    } else if bit_set(bitmap, id) {
        if p + spec_field_width(id) <= s.len() {
            spec_decode_fields(
                s,
                bitmap,
                id + 1,
                p + spec_field_width(id),
                spec_apply_field(s, p, id, st),
            )
        } else {
            None
        }
    } else {
        spec_decode_fields(s, bitmap, id + 1, p, st)
    }
}

/// The little-endian bytes of a 32-bit value.
pub open spec fn spec_le32_bytes(v: u32) -> Seq<u8> {
    seq![
        (v % 256) as u8,
        ((v / 256) % 256) as u8,
        ((v / 65536) % 256) as u8,
        (v / 16777216) as u8,
    ]
}

/// Reading back the little-endian bytes of a value gives the value.
pub proof fn lemma_le32_round_trip(v: u32)
    ensures
        le32(spec_le32_bytes(v), 0) == v,
{
    assert(v % 256 + 256 * ((v / 256) % 256) + 65536 * ((v / 65536) % 256) + 16777216 * (v
        / 16777216) == v) by (bit_vector);
}

/// The reference binary encoding of a dimension: the variant's tag byte,
/// then the scalar's bit pattern.
pub open spec fn spec_encode_dimension(d: Dimension) -> Seq<u8> {
    match d {
        Dimension::Auto => seq![0u8] + spec_le32_bytes(0),
        Dimension::Length(m) => seq![1u8] + spec_le32_bytes(crate::scalar::scalar_to_bits(m as int)),
        Dimension::Percent(m) => seq![2u8] + spec_le32_bytes(
            crate::scalar::scalar_to_bits(m as int),
        ),
    }
}

/// Whether a dimension's scalar denotes a value the bit-pattern encoding
/// represents exactly: a whole multiple of an eighth of a unit, within a
/// million units.
pub open spec fn dimension_exact(d: Dimension) -> bool {
    match d {
        Dimension::Auto => true,
        Dimension::Length(m) => m % 125 == 0 && -1_000_000_000 <= m <= 1_000_000_000,
        Dimension::Percent(m) => m % 125 == 0 && -1_000_000_000 <= m <= 1_000_000_000,
    }
}

/// Round trip: a dimension encoded through the binary path and decoded
/// again reproduces the same logical value, for every exactly
/// representable scalar.
pub proof fn lemma_dimension_round_trip(d: Dimension)
    requires
        dimension_exact(d),
    ensures
        spec_dimension_at(spec_encode_dimension(d), 0) == d,
{
    let enc = spec_encode_dimension(d);
    match d {
        Dimension::Auto => {
            lemma_le32_round_trip(0);
            assert(enc[0] == 0u8);
            assert(le32(enc, 1) == le32(spec_le32_bytes(0), 0));
        },
        Dimension::Length(m) => {
            let bits = crate::scalar::scalar_to_bits(m as int);
            lemma_le32_round_trip(bits);
            crate::scalar::lemma_scalar_round_trip(m as int);
            assert(enc[0] == 1u8);
            assert(le32(enc, 1) == le32(spec_le32_bytes(bits), 0)) by {
                assert(enc[1] == spec_le32_bytes(bits)[0]);
                assert(enc[2] == spec_le32_bytes(bits)[1]);
                assert(enc[3] == spec_le32_bytes(bits)[2]);
                assert(enc[4] == spec_le32_bytes(bits)[3]);
            };
        },
        Dimension::Percent(m) => {
            let bits = crate::scalar::scalar_to_bits(m as int);
            lemma_le32_round_trip(bits);
            crate::scalar::lemma_scalar_round_trip(m as int);
            assert(enc[0] == 2u8);
            assert(le32(enc, 1) == le32(spec_le32_bytes(bits), 0)) by {
                assert(enc[1] == spec_le32_bytes(bits)[0]);
                assert(enc[2] == spec_le32_bytes(bits)[1]);
                assert(enc[3] == spec_le32_bytes(bits)[2]);
                assert(enc[4] == spec_le32_bytes(bits)[3]);
            };
        },
    }
}

/// The reference binary encoding of a margin or inset value.
pub open spec fn spec_encode_lpa(d: Lpa) -> Seq<u8> {
    match d {
        Lpa::Auto => seq![0u8] + spec_le32_bytes(0),
        Lpa::Length(m) => seq![1u8] + spec_le32_bytes(crate::scalar::scalar_to_bits(m as int)),
        Lpa::Percent(m) => seq![2u8] + spec_le32_bytes(crate::scalar::scalar_to_bits(m as int)),
    }
}

/// Whether a margin or inset value's scalar is exactly representable.
pub open spec fn lpa_exact(d: Lpa) -> bool {
    match d {
        Lpa::Auto => true,
        Lpa::Length(m) => m % 125 == 0 && -1_000_000_000 <= m <= 1_000_000_000,
        Lpa::Percent(m) => m % 125 == 0 && -1_000_000_000 <= m <= 1_000_000_000,
    }
}

/// Round trip for margin and inset values through the binary path.
pub proof fn lemma_lpa_round_trip(d: Lpa)
    requires
        lpa_exact(d),
    ensures
        spec_lpa_at(spec_encode_lpa(d), 0) == d,
{
    let enc = spec_encode_lpa(d);
    match d {
        Lpa::Auto => {
            lemma_le32_round_trip(0);
            assert(le32(enc, 1) == le32(spec_le32_bytes(0), 0));
        },
        Lpa::Length(m) => {
            let bits = crate::scalar::scalar_to_bits(m as int);
            lemma_le32_round_trip(bits);
            crate::scalar::lemma_scalar_round_trip(m as int);
            assert(le32(enc, 1) == le32(spec_le32_bytes(bits), 0)) by {
                assert(enc[1] == spec_le32_bytes(bits)[0]);
                assert(enc[2] == spec_le32_bytes(bits)[1]);
                assert(enc[3] == spec_le32_bytes(bits)[2]);
                assert(enc[4] == spec_le32_bytes(bits)[3]);
            };
        },
        Lpa::Percent(m) => {
            let bits = crate::scalar::scalar_to_bits(m as int);
            lemma_le32_round_trip(bits);
            crate::scalar::lemma_scalar_round_trip(m as int);
            assert(le32(enc, 1) == le32(spec_le32_bytes(bits), 0)) by {
                assert(enc[1] == spec_le32_bytes(bits)[0]);
                assert(enc[2] == spec_le32_bytes(bits)[1]);
                assert(enc[3] == spec_le32_bytes(bits)[2]);
                assert(enc[4] == spec_le32_bytes(bits)[3]);
            };
        },
    }
}

/// The reference binary encoding of a padding, border or gap value.
pub open spec fn spec_encode_lp(d: Lp) -> Seq<u8> {
    match d {
        Lp::Length(m) => seq![1u8] + spec_le32_bytes(crate::scalar::scalar_to_bits(m as int)),
        Lp::Percent(m) => seq![2u8] + spec_le32_bytes(crate::scalar::scalar_to_bits(m as int)),
    }
}

/// Whether a padding, border or gap value's scalar is exactly
/// representable.
pub open spec fn lp_exact(d: Lp) -> bool {
    match d {
        Lp::Length(m) => m % 125 == 0 && -1_000_000_000 <= m <= 1_000_000_000,
        Lp::Percent(m) => m % 125 == 0 && -1_000_000_000 <= m <= 1_000_000_000,
    }
}

/// Round trip for padding, border and gap values through the binary path.
pub proof fn lemma_lp_round_trip(d: Lp)
    requires
        lp_exact(d),
    ensures
        spec_lp_at(spec_encode_lp(d), 0) == d,
{
    let enc = spec_encode_lp(d);
    match d {
        Lp::Length(m) => {
            let bits = crate::scalar::scalar_to_bits(m as int);
            lemma_le32_round_trip(bits);
            crate::scalar::lemma_scalar_round_trip(m as int);
            assert(le32(enc, 1) == le32(spec_le32_bytes(bits), 0)) by {
                assert(enc[1] == spec_le32_bytes(bits)[0]);
                assert(enc[2] == spec_le32_bytes(bits)[1]);
                assert(enc[3] == spec_le32_bytes(bits)[2]);
                assert(enc[4] == spec_le32_bytes(bits)[3]);
            };
        },
        Lp::Percent(m) => {
            let bits = crate::scalar::scalar_to_bits(m as int);
            lemma_le32_round_trip(bits);
            crate::scalar::lemma_scalar_round_trip(m as int);
            assert(le32(enc, 1) == le32(spec_le32_bytes(bits), 0)) by {
                assert(enc[1] == spec_le32_bytes(bits)[0]);
                assert(enc[2] == spec_le32_bytes(bits)[1]);
                assert(enc[3] == spec_le32_bytes(bits)[2]);
                assert(enc[4] == spec_le32_bytes(bits)[3]);
            };
        },
    }
}

/// The little-endian bytes of a raw 16-bit value.
pub open spec fn spec_le16_bytes(v: u16) -> Seq<u8> {
    seq![(v % 256) as u8, (v / 256) as u8]
}

/// The reference binary encoding of a grid placement: the tag byte, then
/// the line index's two's-complement pattern or the span count.
pub open spec fn spec_encode_placement(p: GridPlacement) -> Seq<u8> {
    match p {
        GridPlacement::Auto => seq![0u8] + spec_le16_bytes(0),
        GridPlacement::Line(v) => seq![1u8] + spec_le16_bytes(
            (if v >= 0 {
                v as int
            } else {
                v + 65536
            }) as u16,
        ),
        GridPlacement::Span(v) => seq![2u8] + spec_le16_bytes(v),
    }
}

/// Round trip for grid placements through the binary path: exact for
/// every placement.
pub proof fn lemma_placement_round_trip(p: GridPlacement)
    ensures
        spec_placement_at(spec_encode_placement(p), 0) == p,
{
    let enc = spec_encode_placement(p);
    match p {
        GridPlacement::Auto => {
            assert(le16(enc, 1) == 0);
        },
        GridPlacement::Line(v) => {
            let raw: u16 = (if v >= 0 {
                v as int
            } else {
                v + 65536
            }) as u16;
            assert(raw % 256 + 256 * (raw / 256) == raw) by (bit_vector);
            assert(le16(enc, 1) == raw);
            assert(i16_of_raw(raw as int) == v);
        },
        GridPlacement::Span(v) => {
            assert(v % 256 + 256 * (v / 256) == v) by (bit_vector);
            assert(le16(enc, 1) == v);
            assert((le16(enc, 1) as u16) == v);
        },
    }
}

/// The wire code of an enum field (ids 0 through 12), read from a model.
pub open spec fn enum_code_of(m: StyleModel, id: int) -> u8 {
    if id == 0 {
        match m.display {
            Display::Flex => 0u8,
            Display::Grid => 1u8,
            Display::Block => 2u8,
            Display::NoneDisplay => 3u8,
        }
    } else if id == 1 {
        match m.position {
            Position::Relative => 0u8,
            Position::Absolute => 1u8,
        }
    } else if id == 2 || id == 3 {
        match (if id == 2 {
            m.overflow_x
        } else {
            m.overflow_y
        }) {
            Overflow::Visible => 0u8,
            Overflow::Hidden => 1u8,
            Overflow::Clip => 2u8,
            Overflow::Scroll => 3u8,
        }
    } else if id == 4 {
        match m.flex_direction {
            FlexDirection::Row => 0u8,
            FlexDirection::Column => 1u8,
            FlexDirection::RowReverse => 2u8,
            FlexDirection::ColumnReverse => 3u8,
        }
    } else if id == 5 {
        match m.flex_wrap {
            FlexWrap::NoWrap => 0u8,
            FlexWrap::Wrap => 1u8,
            FlexWrap::WrapReverse => 2u8,
        }
    } else if id == 6 {
        match m.justify_content {
            Some(JustifyContent::Start) => 0u8,
            Some(JustifyContent::End) => 1u8,
            Some(JustifyContent::Center) => 2u8,
            Some(JustifyContent::SpaceBetween) => 3u8,
            Some(JustifyContent::SpaceAround) => 4u8,
            Some(JustifyContent::SpaceEvenly) => 5u8,
            Some(JustifyContent::Stretch) => 6u8,
            None => 0u8,
        }
    } else if id == 7 || id == 8 {
        match (if id == 7 {
            m.justify_items
        } else {
            m.align_items
        }) {
            Some(AlignItems::Start) => 0u8,
            Some(AlignItems::End) => 1u8,
            Some(AlignItems::Center) => 2u8,
            Some(AlignItems::Stretch) => 3u8,
            Some(AlignItems::Baseline) => 4u8,
            None => 3u8,
        }
    } else if id == 9 {
        match m.align_content {
            Some(AlignContent::Start) => 0u8,
            Some(AlignContent::End) => 1u8,
            Some(AlignContent::Center) => 2u8,
            Some(AlignContent::Stretch) => 3u8,
            Some(AlignContent::SpaceBetween) => 4u8,
            Some(AlignContent::SpaceAround) => 5u8,
            Some(AlignContent::SpaceEvenly) => 6u8,
            None => 3u8,
        }
    } else if id == 10 || id == 11 {
        match (if id == 10 {
            m.align_self
        } else {
            m.justify_self
        }) {
            None => 0u8,
            Some(AlignSelf::Start) => 1u8,
            Some(AlignSelf::End) => 2u8,
            Some(AlignSelf::Center) => 3u8,
            Some(AlignSelf::Stretch) => 4u8,
            Some(AlignSelf::Baseline) => 5u8,
        }
    } else {
        match m.grid_auto_flow {
            GridAutoFlow::Row => 0u8,
            GridAutoFlow::Column => 1u8,
            GridAutoFlow::RowDense => 2u8,
            GridAutoFlow::ColumnDense => 3u8,
        }
    }
}

/// The scalar of a direct field (ids 13 through 15), read from a model.
pub open spec fn scalar_at(m: StyleModel, id: int) -> i64 {
    if id == 13 {
        m.flex_grow
    } else if id == 14 {
        m.flex_shrink
    } else {
        match m.aspect_ratio {
            Some(a) => a,
            None => 0,
        }
    }
}

/// The dimension of a field (ids 16 through 22), read from a model.
pub open spec fn dim_at(m: StyleModel, id: int) -> Dimension {
    if id == 16 {
        m.width
    } else if id == 17 {
        m.height
    } else if id == 18 {
        m.min_width
    } else if id == 19 {
        m.min_height
    } else if id == 20 {
        m.max_width
    } else if id == 21 {
        m.max_height
    } else {
        m.flex_basis
    }
}

/// The margin or inset value of a field (ids 23 through 30).
pub open spec fn lpa_at(m: StyleModel, id: int) -> Lpa {
    if id == 23 {
        m.margin_top
    } else if id == 24 {
        m.margin_right
    } else if id == 25 {
        m.margin_bottom
    } else if id == 26 {
        m.margin_left
    } else if id == 27 {
        m.inset_top
    } else if id == 28 {
        m.inset_right
    } else if id == 29 {
        m.inset_bottom
    } else {
        m.inset_left
    }
}

/// The padding, border or gap value of a field (ids 31 through 40).
pub open spec fn lp_at(m: StyleModel, id: int) -> Lp {
    if id == 31 {
        m.padding_top
    } else if id == 32 {
        m.padding_right
    } else if id == 33 {
        m.padding_bottom
    } else if id == 34 {
        m.padding_left
    } else if id == 35 {
        m.border_top
    } else if id == 36 {
        m.border_right
    } else if id == 37 {
        m.border_bottom
    } else if id == 38 {
        m.border_left
    } else if id == 39 {
        m.column_gap
    } else {
        m.row_gap
    }
}

/// The grid placement of a field (ids 41 through 44).
pub open spec fn placement_at(m: StyleModel, id: int) -> GridPlacement {
    if id == 41 {
        m.grid_column_start
    } else if id == 42 {
        m.grid_column_end
    } else if id == 43 {
        m.grid_row_start
    } else {
        m.grid_row_end
    }
}

/// The reference wire bytes of the field with bit position `id`, read
/// from a model.
pub open spec fn spec_field_bytes(m: StyleModel, id: int) -> Seq<u8> {
    if id <= 12 {
        seq![enum_code_of(m, id)]
    } else if id <= 15 {
        spec_le32_bytes(crate::scalar::scalar_to_bits(scalar_at(m, id) as int))
    } else if id <= 22 {
        spec_encode_dimension(dim_at(m, id))
    } else if id <= 30 {
        spec_encode_lpa(lpa_at(m, id))
    } else if id <= 40 {
        spec_encode_lp(lp_at(m, id))
    } else {
        spec_encode_placement(placement_at(m, id))
    }
}

/// The reference encoding of a whole field stream: the bytes of every
/// present field, in ascending bit-position order.
pub open spec fn spec_encode_fields(m: StyleModel, bitmap: u64, id: int) -> Seq<u8>
    decreases 45 - id,
{
    if id < 0 || id >= 45 {
        Seq::empty()
    } else if bit_set(bitmap, id) {
        spec_field_bytes(m, id) + spec_encode_fields(m, bitmap, id + 1)
    } else {
        spec_encode_fields(m, bitmap, id + 1)
    }
}

/// `st` with every present field from bit position `id` on replaced by
/// the model's value for that field.
pub open spec fn spec_override_fields(st: StyleModel, m: StyleModel, bitmap: u64, id: int) -> StyleModel
    decreases 45 - id,
{
    if id < 0 || id >= 45 {
        st
    } else if bit_set(bitmap, id) {
        spec_override_fields(field_from(st, m, id), m, bitmap, id + 1)
    } else {
        spec_override_fields(st, m, bitmap, id + 1)
    }
}

/// `st` with the field at bit position `id` replaced by the model's
/// value. The self-alignment fields carry their optional form; the
/// content and item alignments become present, as decoding makes them.
pub open spec fn field_from(st: StyleModel, m: StyleModel, id: int) -> StyleModel {
    if id == 0 {
        StyleModel { display: m.display, ..st }
    } else if id == 1 {
        StyleModel { position: m.position, ..st }
    } else if id == 2 {
        StyleModel { overflow_x: m.overflow_x, ..st }
    } else if id == 3 {
        StyleModel { overflow_y: m.overflow_y, ..st }
    } else if id == 4 {
        StyleModel { flex_direction: m.flex_direction, ..st }
    } else if id == 5 {
        StyleModel { flex_wrap: m.flex_wrap, ..st }
    } else if id == 6 {
        StyleModel { justify_content: m.justify_content, ..st }
    } else if id == 7 {
        StyleModel { justify_items: m.justify_items, ..st }
    } else if id == 8 {
        StyleModel { align_items: m.align_items, ..st }
    } else if id == 9 {
        StyleModel { align_content: m.align_content, ..st }
    } else if id == 10 {
        StyleModel { align_self: m.align_self, ..st }
    } else if id == 11 {
        StyleModel { justify_self: m.justify_self, ..st }
    } else if id == 12 {
        StyleModel { grid_auto_flow: m.grid_auto_flow, ..st }
    } else if id == 13 {
        StyleModel { flex_grow: m.flex_grow, ..st }
    } else if id == 14 {
        StyleModel { flex_shrink: m.flex_shrink, ..st }
    } else if id == 15 {
        StyleModel { aspect_ratio: m.aspect_ratio, ..st }
    } else if id <= 22 {
        spec_apply_dim(st, id, dim_at(m, id))
    } else if id <= 30 {
        spec_apply_lpa(st, id, lpa_at(m, id))
    } else if id <= 40 {
        spec_apply_lp(st, id, lp_at(m, id))
    } else {
        spec_apply_placement(st, id, placement_at(m, id))
    }
}

/// The side conditions under which a model's present fields are exactly
/// representable on the wire: scalars on the eighth-of-a-pixel grid
/// within a million pixels, present alignments actually present, and an
/// aspect ratio present when its bit is.
pub open spec fn fields_exact(m: StyleModel, bitmap: u64) -> bool {
    &&& bit_set(bitmap, 6) ==> m.justify_content is Some
    &&& bit_set(bitmap, 7) ==> m.justify_items is Some
    &&& bit_set(bitmap, 8) ==> m.align_items is Some
    &&& bit_set(bitmap, 9) ==> m.align_content is Some
    &&& bit_set(bitmap, 13) ==> scalar_exact(m.flex_grow as int)
    &&& bit_set(bitmap, 14) ==> scalar_exact(m.flex_shrink as int)
    &&& bit_set(bitmap, 15) ==> (m.aspect_ratio matches Some(a) && scalar_exact(a as int))
    &&& forall|id: int| 16 <= id <= 22 && bit_set(bitmap, id) ==> dimension_exact(#[trigger] dim_at(m, id))
    &&& forall|id: int| 23 <= id <= 30 && bit_set(bitmap, id) ==> lpa_exact(#[trigger] lpa_at(m, id))
    &&& forall|id: int| 31 <= id <= 40 && bit_set(bitmap, id) ==> lp_exact(#[trigger] lp_at(m, id))
}

/// A scalar on the exactly representable grid.
pub open spec fn scalar_exact(v: int) -> bool {
    v % 125 == 0 && -1_000_000_000 <= v <= 1_000_000_000
}

/// A field's reference bytes have the field's wire width.
proof fn lemma_field_bytes_len(m: StyleModel, id: int)
    requires
        0 <= id < 45,
    ensures
        spec_field_bytes(m, id).len() == spec_field_width(id),
{
}

/// Reading a field's reference bytes back gives the model's value for
/// that field.
proof fn lemma_apply_field_from(s: Seq<u8>, p: int, id: int, st: StyleModel, m: StyleModel)
    requires
        0 <= id < 45,
        0 <= p,
        p + spec_field_width(id) <= s.len(),
        forall|k: int|
            0 <= k < spec_field_width(id) ==> s[p + k] == #[trigger] spec_field_bytes(m, id)[k],
        id == 6 ==> m.justify_content is Some,
        id == 7 ==> m.justify_items is Some,
        id == 8 ==> m.align_items is Some,
        id == 9 ==> m.align_content is Some,
        13 <= id <= 14 ==> scalar_exact(scalar_at(m, id) as int),
        id == 15 ==> (m.aspect_ratio matches Some(a) && scalar_exact(a as int)),
        16 <= id <= 22 ==> dimension_exact(dim_at(m, id)),
        23 <= id <= 30 ==> lpa_exact(lpa_at(m, id)),
        31 <= id <= 40 ==> lp_exact(lp_at(m, id)),
    ensures
        spec_apply_field(s, p, id, st) == field_from(st, m, id),
{
    let chunk = spec_field_bytes(m, id);
    if id <= 12 {
        assert(s[p] == chunk[0]);
    } else if id <= 15 {
        let v = scalar_at(m, id);
        let bits = crate::scalar::scalar_to_bits(v as int);
        assert(chunk == spec_le32_bytes(bits));
        assert(s[p] == chunk[0] && s[p + 1] == chunk[1] && s[p + 2] == chunk[2] && s[p + 3]
            == chunk[3]);
        assert(le32(s, p) == le32(spec_le32_bytes(bits), 0));
        lemma_le32_round_trip(bits);
        crate::scalar::lemma_scalar_round_trip(v as int);
    } else if id <= 22 {
        let d = dim_at(m, id);
        assert(chunk == spec_encode_dimension(d));
        assert(s[p] == chunk[0] && s[p + 1] == chunk[1] && s[p + 2] == chunk[2] && s[p + 3]
            == chunk[3] && s[p + 4] == chunk[4]);
        assert(le32(s, p + 1) == le32(chunk, 1));
        lemma_dimension_round_trip(d);
        assert(le32(chunk, 1) == le32(spec_le32_bytes(
            crate::scalar::scalar_to_bits(
                match d {
                    Dimension::Auto => 0int,
                    Dimension::Length(v) => v as int,
                    Dimension::Percent(v) => v as int,
                },
            ),
        ), 0));
        assert(spec_dimension_at(s, p) == spec_dimension_at(chunk, 0));
    } else if id <= 30 {
        let d = lpa_at(m, id);
        assert(chunk == spec_encode_lpa(d));
        assert(s[p] == chunk[0] && s[p + 1] == chunk[1] && s[p + 2] == chunk[2] && s[p + 3]
            == chunk[3] && s[p + 4] == chunk[4]);
        assert(le32(s, p + 1) == le32(chunk, 1));
        lemma_lpa_round_trip(d);
        assert(spec_lpa_at(s, p) == spec_lpa_at(chunk, 0));
    } else if id <= 40 {
        let d = lp_at(m, id);
        assert(chunk == spec_encode_lp(d));
        assert(s[p] == chunk[0] && s[p + 1] == chunk[1] && s[p + 2] == chunk[2] && s[p + 3]
            == chunk[3] && s[p + 4] == chunk[4]);
        assert(le32(s, p + 1) == le32(chunk, 1));
        lemma_lp_round_trip(d);
        assert(spec_lp_at(s, p) == spec_lp_at(chunk, 0));
    } else {
        let d = placement_at(m, id);
        assert(chunk == spec_encode_placement(d));
        assert(s[p] == chunk[0] && s[p + 1] == chunk[1] && s[p + 2] == chunk[2]);
        assert(le16(s, p + 1) == le16(chunk, 1));
        lemma_placement_round_trip(d);
        assert(spec_placement_at(s, p) == spec_placement_at(chunk, 0));
    }
}

/// Decoding an encoded field stream from bit position `id` on writes the
/// model's present fields over the starting style and stops after the
/// encoded bytes.
proof fn lemma_decode_encode_fields(
    s: Seq<u8>,
    m: StyleModel,
    bitmap: u64,
    st: StyleModel,
    id: int,
    p: int,
)
    requires
        0 <= id <= 45,
        0 <= p,
        p + spec_encode_fields(m, bitmap, id).len() <= s.len(),
        s.subrange(p, p + spec_encode_fields(m, bitmap, id).len() as int) == spec_encode_fields(
            m,
            bitmap,
            id,
        ),
        fields_exact(m, bitmap),
    ensures
        spec_decode_fields(s, bitmap, id, p, st) == Some(
            (
                spec_override_fields(st, m, bitmap, id),
                p + spec_encode_fields(m, bitmap, id).len(),
            ),
        ),
    decreases 45 - id,
{
    if id >= 45 {
    } else if bit_set(bitmap, id) {
        let chunk = spec_field_bytes(m, id);
        let rest = spec_encode_fields(m, bitmap, id + 1);
        let enc = spec_encode_fields(m, bitmap, id);
        let w = spec_field_width(id);
        lemma_field_bytes_len(m, id);
        assert(enc == chunk + rest);
        assert(enc.len() == w + rest.len());
        assert forall|k: int| 0 <= k < w implies s[p + k] == #[trigger] spec_field_bytes(m, id)[k] by {
            assert(s.subrange(p, p + enc.len() as int)[k] == enc[k]);
            assert(enc[k] == chunk[k]);
        };
        lemma_apply_field_from(s, p, id, st, m);
        assert(s.subrange(p + w, p + w + rest.len() as int) =~= rest) by {
            assert(forall|k: int|
                0 <= k < rest.len() ==> s.subrange(p, p + enc.len() as int)[w + k] == enc[w + k]
                    && enc[w + k] == rest[k]);
        };
        lemma_decode_encode_fields(s, m, bitmap, field_from(st, m, id), id + 1, p + w);
    } else {
        lemma_decode_encode_fields(s, m, bitmap, st, id + 1, p);
    }
}

/// Round trip of a whole field stream: decoding the reference encoding
/// of a model's present fields writes exactly those fields' values over
/// the starting style, consumes exactly the encoded bytes, and never
/// fails — the per-field round-trip laws packaged as one statement.
pub proof fn lemma_fields_round_trip(
    s: Seq<u8>,
    m: StyleModel,
    bitmap: u64,
    st: StyleModel,
    p: int,
)
    requires
        0 <= p,
        p + spec_encode_fields(m, bitmap, 0).len() <= s.len(),
        s.subrange(p, p + spec_encode_fields(m, bitmap, 0).len() as int) == spec_encode_fields(
            m,
            bitmap,
            0,
        ),
        fields_exact(m, bitmap),
    ensures
        spec_decode_fields(s, bitmap, 0, p, st) == Some(
            (spec_override_fields(st, m, bitmap, 0), p + spec_encode_fields(m, bitmap, 0).len()),
        ),
{
    lemma_decode_encode_fields(s, m, bitmap, st, 0, p);
}

/// The little-endian bytes of a 64-bit value.
pub open spec fn spec_le64_bytes(v: u64) -> Seq<u8> {
    spec_le32_bytes((v % 0x1_0000_0000) as u32) + spec_le32_bytes((v / 0x1_0000_0000) as u32)
}

/// Reading back the little-endian bytes of a 64-bit value gives the
/// value.
proof fn lemma_le64_round_trip(v: u64)
    ensures
        le64(spec_le64_bytes(v), 0) == v,
{
    let lo = (v % 0x1_0000_0000) as u32;
    let hi = (v / 0x1_0000_0000) as u32;
    lemma_le32_round_trip(lo);
    lemma_le32_round_trip(hi);
    assert(le32(spec_le64_bytes(v), 0) == le32(spec_le32_bytes(lo), 0));
    assert(le32(spec_le64_bytes(v), 4) == le32(spec_le32_bytes(hi), 0));
    assert(v % 0x1_0000_0000 + 0x1_0000_0000 * (v / 0x1_0000_0000) == v) by (bit_vector);
}

/// The wire bytes of a child-index list, two bytes per index in order.
pub open spec fn spec_children_bytes(children: Seq<u16>) -> Seq<u8>
    decreases children.len(),
{
    if children.len() == 0 {
        Seq::empty()
    } else {
        spec_children_bytes(children.drop_last()) + spec_le16_bytes(children.last())
    }
}

/// The child-index bytes hold each index at its slot.
proof fn lemma_children_round_trip(s: Seq<u8>, p: int, children: Seq<u16>)
    requires
        0 <= p,
        p + 2 * children.len() <= s.len(),
        forall|k: int|
            0 <= k < 2 * children.len() ==> s[p + k] == #[trigger] spec_children_bytes(
                children,
            )[k],
    ensures
        forall|j: int| 0 <= j < children.len() ==> le16(s, p + 2 * j) == children[j],
    decreases children.len(),
{
    if children.len() > 0 {
        let pre = children.drop_last();
        let cb = spec_children_bytes(children);
        let n = children.len() as int;
        assert(cb == spec_children_bytes(pre) + spec_le16_bytes(children.last()));
        assert(spec_children_bytes(pre).len() == 2 * pre.len()) by {
            lemma_children_bytes_len(pre);
        };
        assert forall|k: int|
            0 <= k < 2 * pre.len() implies s[p + k] == #[trigger] spec_children_bytes(pre)[k] by {
            assert(cb[k] == spec_children_bytes(pre)[k]);
        };
        lemma_children_round_trip(s, p, pre);
        let last = children.last();
        assert(s[p + 2 * (n - 1)] == cb[2 * (n - 1)]);
        assert(s[p + 2 * (n - 1) + 1] == cb[2 * (n - 1) + 1]);
        assert(cb[2 * (n - 1)] == spec_le16_bytes(last)[0]);
        assert(cb[2 * (n - 1) + 1] == spec_le16_bytes(last)[1]);
        assert(last % 256 + 256 * (last / 256) == last) by (bit_vector);
        assert(le16(s, p + 2 * (n - 1)) == last);
        assert(forall|j: int| 0 <= j < n - 1 ==> pre[j] == children[j]);
        assert(children.last() == children[n - 1]);
    }
}

/// The child-index bytes are two per index.
proof fn lemma_children_bytes_len(children: Seq<u16>)
    ensures
        spec_children_bytes(children).len() == 2 * children.len(),
    decreases children.len(),
{
    if children.len() > 0 {
        lemma_children_bytes_len(children.drop_last());
    }
}

/// The reference wire bytes of one node record: presence bitmap, child
/// count and indices, side-channel length and bytes, then the present
/// fields in ascending bit order.
pub open spec fn spec_encode_node(
    m: StyleModel,
    bitmap: u64,
    children: Seq<u16>,
    sb: Seq<u8>,
) -> Seq<u8> {
    spec_le64_bytes(bitmap) + spec_le16_bytes(children.len() as u16) + spec_children_bytes(
        children,
    ) + spec_le16_bytes(sb.len() as u16) + sb + spec_encode_fields(m, bitmap, 0)
}

/// Assemble a node-level reading from its distilled segment facts.
proof fn lemma_node_core_assemble(
    s: Seq<u8>,
    p: int,
    bitmap: u64,
    cc: int,
    sl: int,
    stf: StyleModel,
    endf: int,
)
    requires
        0 <= p,
        0 <= cc,
        0 <= sl,
        p + 10 <= s.len(),
        le64(s, p) == bitmap,
        le16(s, p + 8) == cc,
        p + 10 + 2 * cc + 2 <= s.len(),
        le16(s, p + 10 + 2 * cc) == sl,
        p + 12 + 2 * cc + sl <= s.len(),
        spec_fields_from_base(s, bitmap, p + 12 + 2 * cc + sl) == Some((stf, endf)),
    ensures
        spec_node_core(s, p) == Some(
            NodeCore {
                style: stf,
                children: Seq::new(cc as nat, |j: int| le16(s, p + 10 + 2 * j)),
                sb_lo: p + 12 + 2 * cc,
                sb_hi: p + 12 + 2 * cc + sl,
                end: endf,
            },
        ),
{
    reveal(spec_node_core);
}

/// Round trip of one node record: decoding the reference encoding gives
/// back the bitmap's fields over the baseline, the child indices, the
/// side-channel range and the position after the record.
#[verifier::rlimit(100)]
pub proof fn lemma_node_round_trip(
    s: Seq<u8>,
    m: StyleModel,
    bitmap: u64,
    children: Seq<u16>,
    sb: Seq<u8>,
    p: int,
)
    requires
        0 <= p,
        children.len() <= 65535,
        sb.len() <= 65535,
        p + spec_encode_node(m, bitmap, children, sb).len() <= s.len(),
        s.subrange(p, p + spec_encode_node(m, bitmap, children, sb).len() as int)
            == spec_encode_node(m, bitmap, children, sb),
        fields_exact(m, bitmap),
    ensures
        spec_node_core(s, p) matches Some(c) && {
            &&& c.style == spec_override_fields(base_model(), m, bitmap, 0)
            &&& c.children == children.map(|j: int, x: u16| x as int)
            &&& c.sb_lo == p + 12 + 2 * (children.len() as int)
            &&& c.sb_hi == c.sb_lo + sb.len()
            &&& s.subrange(c.sb_lo, c.sb_hi) == sb
            &&& c.end == p + spec_encode_node(m, bitmap, children, sb).len()
        },
{
    let enc = spec_encode_node(m, bitmap, children, sb);
    let cb = spec_children_bytes(children);
    lemma_children_bytes_len(children);
    let cc = children.len() as int;
    let sl = sb.len() as int;
    let fields = spec_encode_fields(m, bitmap, 0);
    assert(enc.len() == 8 + 2 + 2 * cc + 2 + sl + fields.len());
    assert forall|k: int| 0 <= k < enc.len() implies s[p + k] == #[trigger] enc[k] by {
        assert(s.subrange(p, p + enc.len() as int)[k] == enc[k]);
    };
    // bitmap
    lemma_le64_round_trip(bitmap);
    let lb = spec_le64_bytes(bitmap);
    assert(lb.len() == 8);
    assert forall|k: int| 0 <= k < 8 implies s[p + k] == #[trigger] lb[k] by {
        assert(enc[k] == lb[k]);
    };
    assert(le64(s, p) == le64(lb, 0));
    assert(le64(s, p) == bitmap);
    // child count
    let ccw = children.len() as u16;
    let cw = spec_le16_bytes(ccw);
    assert(s[p + 8] == cw[0]) by {
        assert(enc[8] == cw[0]);
    };
    assert(s[p + 9] == cw[1]) by {
        assert(enc[9] == cw[1]);
    };
    assert(ccw % 256 + 256 * (ccw / 256) == ccw) by (bit_vector);
    assert(le16(s, p + 8) == cc);
    // children
    let p2 = p + 10;
    assert forall|k: int| 0 <= k < 2 * cc implies s[p2 + k] == #[trigger] cb[k] by {
        assert(enc[10 + k] == cb[k]);
    };
    lemma_children_round_trip(s, p2, children);
    // side-channel length and bytes
    let p3 = p2 + 2 * cc;
    assert(s[p3] == spec_le16_bytes(sb.len() as u16)[0]) by {
        assert(enc[10 + 2 * cc] == spec_le16_bytes(sb.len() as u16)[0]);
    };
    assert(s[p3 + 1] == spec_le16_bytes(sb.len() as u16)[1]) by {
        assert(enc[10 + 2 * cc + 1] == spec_le16_bytes(sb.len() as u16)[1]);
    };
    let slw = sb.len() as u16;
    assert(slw % 256 + 256 * (slw / 256) == slw) by (bit_vector);
    assert(le16(s, p3) == sl);
    let p4 = p3 + 2;
    assert forall|k: int| 0 <= k < sl implies s[p4 + k] == #[trigger] sb[k] by {
        assert(enc[12 + 2 * cc + k] == sb[k]);
        assert(s[p4 + k] == enc[12 + 2 * cc + k]);
    };
    assert(s.subrange(p4, p4 + sl) =~= sb);
    // fields
    let p5 = p4 + sl;
    assert forall|k: int| 0 <= k < fields.len() implies s[p5 + k] == #[trigger] fields[k] by {
        assert(enc[12 + 2 * cc + sl + k] == fields[k]);
        assert(s[p5 + k] == enc[12 + 2 * cc + sl + k]);
    };
    assert(s.subrange(p5, p5 + fields.len() as int) =~= fields);
    lemma_fields_round_trip(s, m, bitmap, base_model(), p5);
    lemma_node_core_assemble(
        s,
        p,
        bitmap,
        cc,
        sl,
        spec_override_fields(base_model(), m, bitmap, 0),
        p5 + fields.len() as int,
    );
    let c = spec_node_core(s, p)->Some_0;
    assert(c.sb_lo == p + 12 + 2 * cc);
    assert(c.end == p + enc.len());
    assert(c.children =~= children.map(|j: int, x: u16| x as int));
}

/// What a batch producer encodes for one node: the style model whose
/// present fields go on the wire, the presence bitmap, the child
/// indices, and the raw side-channel bytes.
pub struct NodeEnc {
    pub style: StyleModel,
    pub bitmap: u64,
    pub children: Seq<u16>,
    pub sb: Seq<u8>,
}

/// The concatenated wire bytes of a node list, first node first.
pub open spec fn spec_encode_nodes(nodes: Seq<NodeEnc>) -> Seq<u8>
    decreases nodes.len(),
{
    if nodes.len() == 0 {
        Seq::empty()
    } else {
        spec_encode_node(nodes[0].style, nodes[0].bitmap, nodes[0].children, nodes[0].sb)
            + spec_encode_nodes(nodes.drop_first())
    }
}

/// The reference wire bytes of a whole batch: magic, version, node
/// count, then the node records.
pub open spec fn spec_encode_batch(nodes: Seq<NodeEnc>) -> Seq<u8> {
    seq![0x54u8, 0x41u8, 0x46u8, 0x46u8, 1u8] + spec_le32_bytes(nodes.len() as u32)
        + spec_encode_nodes(nodes)
}

/// A node list a producer can encode: index counts fit the wire widths
/// and every present scalar is exactly representable.
pub open spec fn nodes_encodable(nodes: Seq<NodeEnc>) -> bool {
    forall|i: int|
        0 <= i < nodes.len() ==> {
            let n = #[trigger] nodes[i];
            &&& n.children.len() <= 65535
            &&& n.sb.len() <= 65535
            &&& fields_exact(n.style, n.bitmap)
        }
}

/// How one decoded node-level reading matches what was encoded.
pub open spec fn core_matches_enc(s: Seq<u8>, c: NodeCore, n: NodeEnc) -> bool {
    &&& c.style == spec_override_fields(base_model(), n.style, n.bitmap, 0)
    &&& c.children == n.children.map(|j: int, x: u16| x as int)
    &&& s.subrange(c.sb_lo, c.sb_hi) == n.sb
}

/// Decoding an encoded node list reads back every node.
proof fn lemma_batch_nodes_round_trip(s: Seq<u8>, nodes: Seq<NodeEnc>, p: int)
    requires
        0 <= p,
        p + spec_encode_nodes(nodes).len() <= s.len(),
        s.subrange(p, p + spec_encode_nodes(nodes).len() as int) == spec_encode_nodes(nodes),
        nodes_encodable(nodes),
    ensures
        spec_batch_nodes(s, p, nodes.len() as int) matches Some(cores) && cores.len()
            == nodes.len() && (forall|i: int|
            0 <= i < nodes.len() ==> core_matches_enc(s, #[trigger] cores[i], nodes[i])),
    decreases nodes.len(),
{
    if nodes.len() > 0 {
        let first = nodes[0];
        let enc0 = spec_encode_node(first.style, first.bitmap, first.children, first.sb);
        let rest_enc = spec_encode_nodes(nodes.drop_first());
        let enc = spec_encode_nodes(nodes);
        assert(enc == enc0 + rest_enc);
        assert forall|k: int| 0 <= k < enc.len() implies s[p + k] == #[trigger] enc[k] by {
            assert(s.subrange(p, p + enc.len() as int)[k] == enc[k]);
        };
        assert(s.subrange(p, p + enc0.len() as int) =~= enc0) by {
            assert(forall|k: int| 0 <= k < enc0.len() ==> #[trigger] enc[k] == enc0[k]);
        };
        lemma_node_round_trip(s, first.style, first.bitmap, first.children, first.sb, p);
        let c0 = spec_node_core(s, p)->Some_0;
        let p1 = p + enc0.len() as int;
        assert forall|k: int|
            0 <= k < rest_enc.len() implies s.subrange(p1, p1 + rest_enc.len() as int)[k]
                == #[trigger] rest_enc[k] by {
            assert(enc[enc0.len() + k] == rest_enc[k]);
            assert(s[p1 + k] == enc[enc0.len() + k]);
        };
        assert(s.subrange(p1, p1 + rest_enc.len() as int) =~= rest_enc);
        assert(nodes_encodable(nodes.drop_first())) by {
            assert(forall|i: int|
                0 <= i < nodes.drop_first().len() ==> #[trigger] nodes.drop_first()[i] == nodes[
                i + 1]);
        };
        lemma_batch_nodes_round_trip(s, nodes.drop_first(), p1);
        let rest_cores = spec_batch_nodes(s, p1, nodes.drop_first().len() as int)->Some_0;
        assert(c0.end == p1);
        assert(spec_batch_nodes(s, p, nodes.len() as int) == Some(seq![c0] + rest_cores));
        let cores = seq![c0] + rest_cores;
        assert forall|i: int|
            0 <= i < nodes.len() implies core_matches_enc(s, #[trigger] cores[i], nodes[i]) by {
            if i == 0 {
                assert(cores[0] == c0);
            } else {
                assert(cores[i] == rest_cores[i - 1]);
                assert(nodes.drop_first()[i - 1] == nodes[i]);
            }
        };
    }
}

/// Round trip of a whole batch — the blanket decode-inverts-encode law:
/// a buffer holding the reference encoding of any encodable node list
/// reads back as that list, node for node and field for field. Together
/// with [`decode_batch_binary`]'s own contract, a batch whose
/// side-channels are absent or well formed therefore decodes to `Ok`
/// with exactly the encoded styles, children and track lists.
pub proof fn lemma_batch_round_trip(s: Seq<u8>, nodes: Seq<NodeEnc>)
    requires
        s == spec_encode_batch(nodes),
        nodes.len() < 0x1_0000_0000,
        nodes_encodable(nodes),
    ensures
        spec_header(s) == Ok::<int, DecodeError>(nodes.len() as int),
        spec_batch_nodes(s, 9, nodes.len() as int) matches Some(cores) && cores.len()
            == nodes.len() && (forall|i: int|
            0 <= i < nodes.len() ==> core_matches_enc(s, #[trigger] cores[i], nodes[i])),
{
    let cnt = spec_le32_bytes(nodes.len() as u32);
    let body = spec_encode_nodes(nodes);
    assert(s.len() == 9 + body.len());
    assert(s[0] == 0x54 && s[1] == 0x41 && s[2] == 0x46 && s[3] == 0x46);
    assert(s[4] == 1);
    assert(s[5] == cnt[0] && s[6] == cnt[1] && s[7] == cnt[2] && s[8] == cnt[3]);
    lemma_le32_round_trip(nodes.len() as u32);
    assert(le32(s, 5) == le32(cnt, 0));
    assert(spec_header(s) == Ok::<int, DecodeError>(nodes.len() as int));
    assert(s.subrange(9, 9 + body.len() as int) =~= body);
    lemma_batch_nodes_round_trip(s, nodes, 9);
}

/// Cross-decoder equivalence for pixel lengths: a binary scalar field
/// carrying the reference encoding of `m` thousandths and a textual
/// token `<decimal>px` whose decimal denotes `m` decode to the same
/// logical value, for every exactly representable scalar — for
/// dimensions, margin/inset values and padding/border/gap values alike.
pub proof fn lemma_cross_decoder_length(m: int, tok: Seq<u8>)
    requires
        m % 125 == 0,
        -1_000_000_000 <= m <= 1_000_000_000,
        crate::grammar::spec_decimal(tok, 0, tok.len() as int) == Some(m),
    ensures
        crate::grammar::spec_parse_dimension(tok + seq![112u8, 120u8], 0, tok.len() as int + 2)
            == Dimension::Length(m as i64),
        crate::grammar::spec_parse_lpa(tok + seq![112u8, 120u8], 0, tok.len() as int + 2) == Lpa::Length(
            m as i64,
        ),
        crate::grammar::spec_parse_lp(tok + seq![112u8, 120u8], 0, tok.len() as int + 2) == Lp::Length(
            m as i64,
        ),
        spec_dimension_at(spec_encode_dimension(Dimension::Length(m as i64)), 0)
            == Dimension::Length(m as i64),
        spec_lpa_at(spec_encode_lpa(Lpa::Length(m as i64)), 0) == Lpa::Length(m as i64),
        spec_lp_at(spec_encode_lp(Lp::Length(m as i64)), 0) == Lp::Length(m as i64),
{
    reveal(crate::grammar::spec_parse_dimension);
    reveal(crate::grammar::spec_parse_lpa);
    reveal(crate::grammar::spec_parse_lp);
    let t = tok + seq![112u8, 120u8];
    let n = t.len() as int;
    crate::grammar::lemma_decimal_starts(tok, 0, tok.len() as int);
    assert(t[0] == tok[0]);
    assert(!crate::grammar::is_ws(t[0]));
    assert(crate::grammar::trim_lo(t, 0, n) == 0);
    assert(t[n - 1] == 120u8);
    assert(!crate::grammar::is_ws(t[n - 1]));
    assert(crate::grammar::trim_hi(t, 0, n) == n);
    assert(!crate::grammar::range_is(t, 0, n, crate::grammar::kw_auto())) by {
        if crate::grammar::range_is(t, 0, n, crate::grammar::kw_auto()) {
            assert(t.subrange(0, n)[n - 1] == crate::grammar::kw_auto()[3]);
        }
    };
    assert(t[n - 2] == 112u8);
    crate::grammar::lemma_decimal_agree(tok, t, 0, tok.len() as int);
    assert(crate::grammar::spec_decimal(t, 0, n - 2) == Some(m));
    lemma_dimension_round_trip(Dimension::Length(m as i64));
    lemma_lpa_round_trip(Lpa::Length(m as i64));
    lemma_lp_round_trip(Lp::Length(m as i64));
}

/// Cross-decoder equivalence for fractions: a textual token
/// `<decimal>%` whose decimal denotes `m` parses to the fraction
/// `m / 100`, and the binary encoding of that same fraction decodes to
/// it, whenever the fraction is exactly representable.
pub proof fn lemma_cross_decoder_percent(m: int, tok: Seq<u8>)
    requires
        crate::grammar::div100(m) % 125 == 0,
        -1_000_000_000 <= crate::grammar::div100(m) <= 1_000_000_000,
        crate::grammar::spec_decimal(tok, 0, tok.len() as int) == Some(m),
    ensures
        crate::grammar::spec_parse_dimension(tok + seq![37u8], 0, tok.len() as int + 1)
            == Dimension::Percent(crate::grammar::div100(m) as i64),
        spec_dimension_at(
            spec_encode_dimension(Dimension::Percent(crate::grammar::div100(m) as i64)),
            0,
        ) == Dimension::Percent(crate::grammar::div100(m) as i64),
{
    reveal(crate::grammar::spec_parse_dimension);
    let t = tok + seq![37u8];
    let n = t.len() as int;
    crate::grammar::lemma_decimal_starts(tok, 0, tok.len() as int);
    assert(t[0] == tok[0]);
    assert(!crate::grammar::is_ws(t[0]));
    assert(crate::grammar::trim_lo(t, 0, n) == 0);
    assert(t[n - 1] == 37u8);
    assert(!crate::grammar::is_ws(t[n - 1]));
    assert(crate::grammar::trim_hi(t, 0, n) == n);
    assert(!crate::grammar::range_is(t, 0, n, crate::grammar::kw_auto())) by {
        if crate::grammar::range_is(t, 0, n, crate::grammar::kw_auto()) {
            assert(t.subrange(0, n)[n - 1] == crate::grammar::kw_auto()[3]);
        }
    };
    assert(!(n >= 2 && t[n - 2] == 112 && t[n - 1] == 120));
    crate::grammar::lemma_decimal_agree(tok, t, 0, tok.len() as int);
    assert(crate::grammar::spec_decimal(t, 0, n - 1) == Some(m));
    lemma_dimension_round_trip(Dimension::Percent(crate::grammar::div100(m) as i64));
}

/// Display from its wire code.
pub fn decode_display(v: u8) -> (r: Display)
    ensures
        r == spec_display_code(v),
{
    match v {
        1 => Display::Grid,
        2 => Display::Block,
        3 => Display::NoneDisplay,
        _ => Display::Flex,
    }
}

/// Position from its wire code.
pub fn decode_position(v: u8) -> (r: Position)
    ensures
        r == spec_position_code(v),
{
    match v {
        1 => Position::Absolute,
        _ => Position::Relative,
    }
}

/// Overflow from its wire code.
pub fn decode_overflow(v: u8) -> (r: Overflow)
    ensures
        r == spec_overflow_code(v),
{
    match v {
        1 => Overflow::Hidden,
        2 => Overflow::Clip,
        3 => Overflow::Scroll,
        _ => Overflow::Visible,
    }
}

/// Flex direction from its wire code.
pub fn decode_flex_direction(v: u8) -> (r: FlexDirection)
    ensures
        r == spec_flex_direction_code(v),
{
    match v {
        1 => FlexDirection::Column,
        2 => FlexDirection::RowReverse,
        3 => FlexDirection::ColumnReverse,
        _ => FlexDirection::Row,
    }
}

/// Flex wrap from its wire code.
pub fn decode_flex_wrap(v: u8) -> (r: FlexWrap)
    ensures
        r == spec_flex_wrap_code(v),
{
    match v {
        1 => FlexWrap::Wrap,
        2 => FlexWrap::WrapReverse,
        _ => FlexWrap::NoWrap,
    }
}

/// Main-axis distribution from its wire code.
pub fn decode_justify_content(v: u8) -> (r: JustifyContent)
    ensures
        r == spec_justify_content_code(v),
{
    match v {
        1 => JustifyContent::End,
        2 => JustifyContent::Center,
        3 => JustifyContent::SpaceBetween,
        4 => JustifyContent::SpaceAround,
        5 => JustifyContent::SpaceEvenly,
        6 => JustifyContent::Stretch,
        _ => JustifyContent::Start,
    }
}

/// Item alignment from its wire code.
pub fn decode_align_items(v: u8) -> (r: AlignItems)
    ensures
        r == spec_align_items_code(v),
{
    match v {
        0 => AlignItems::Start,
        1 => AlignItems::End,
        2 => AlignItems::Center,
        4 => AlignItems::Baseline,
        _ => AlignItems::Stretch,
    }
}

/// Content alignment from its wire code.
pub fn decode_align_content(v: u8) -> (r: AlignContent)
    ensures
        r == spec_align_content_code(v),
{
    match v {
        0 => AlignContent::Start,
        1 => AlignContent::End,
        2 => AlignContent::Center,
        4 => AlignContent::SpaceBetween,
        5 => AlignContent::SpaceAround,
        6 => AlignContent::SpaceEvenly,
        _ => AlignContent::Stretch,
    }
}

/// Self alignment from its wire code; zero decodes to `None` (auto).
pub fn decode_align_self_opt(v: u8) -> (r: Option<AlignSelf>)
    ensures
        r == spec_align_self_code(v),
{
    match v {
        1 => Some(AlignSelf::Start),
        2 => Some(AlignSelf::End),
        3 => Some(AlignSelf::Center),
        4 => Some(AlignSelf::Stretch),
        5 => Some(AlignSelf::Baseline),
        _ => None,
    }
}

/// Grid auto-flow from its wire code.
pub fn decode_grid_auto_flow(v: u8) -> (r: GridAutoFlow)
    ensures
        r == spec_grid_auto_flow_code(v),
{
    match v {
        1 => GridAutoFlow::Column,
        2 => GridAutoFlow::RowDense,
        3 => GridAutoFlow::ColumnDense,
        _ => GridAutoFlow::Row,
    }
}

/// Decode a dimension: tag byte, then scalar bits.
pub fn decode_dimension<'a>(cur: &mut Cursor<'a>) -> (r: Option<Dimension>)
    requires
        old(cur).wf(),
    ensures
        final(cur).wf(),
        final(cur).bytes() == old(cur).bytes(),
        old(cur).at() + 5 <= old(cur).bytes().len() ==> {
            &&& r == Some(spec_dimension_at(old(cur).bytes(), old(cur).at()))
            &&& final(cur).at() == old(cur).at() + 5
        },
        old(cur).at() + 5 > old(cur).bytes().len() ==> r is None,
{
    let tag = match cur.read_u8() {
        Some(t) => t,
        None => {
            return None;
        },
    };
    let bits = match cur.read_u32_le() {
        Some(b) => b,
        None => {
            return None;
        },
    };
    let m = scalar_from_bits(bits);
    Some(
        match tag {
            0 => Dimension::Auto,
            1 => Dimension::Length(m),
            2 => Dimension::Percent(m),
            _ => Dimension::Auto,
        },
    )
}

/// Decode a margin or inset value: tag byte, then scalar bits.
pub fn decode_lpa<'a>(cur: &mut Cursor<'a>) -> (r: Option<Lpa>)
    requires
        old(cur).wf(),
    ensures
        final(cur).wf(),
        final(cur).bytes() == old(cur).bytes(),
        old(cur).at() + 5 <= old(cur).bytes().len() ==> {
            &&& r == Some(spec_lpa_at(old(cur).bytes(), old(cur).at()))
            &&& final(cur).at() == old(cur).at() + 5
        },
        old(cur).at() + 5 > old(cur).bytes().len() ==> r is None,
{
    let tag = match cur.read_u8() {
        Some(t) => t,
        None => {
            return None;
        },
    };
    let bits = match cur.read_u32_le() {
        Some(b) => b,
        None => {
            return None;
        },
    };
    let m = scalar_from_bits(bits);
    Some(
        match tag {
            0 => Lpa::Auto,
            1 => Lpa::Length(m),
            2 => Lpa::Percent(m),
            _ => Lpa::Auto,
        },
    )
}

/// Decode a padding, border or gap value: tag byte, then scalar bits.
pub fn decode_lp<'a>(cur: &mut Cursor<'a>) -> (r: Option<Lp>)
    requires
        old(cur).wf(),
    ensures
        final(cur).wf(),
        final(cur).bytes() == old(cur).bytes(),
        old(cur).at() + 5 <= old(cur).bytes().len() ==> {
            &&& r == Some(spec_lp_at(old(cur).bytes(), old(cur).at()))
            &&& final(cur).at() == old(cur).at() + 5
        },
        old(cur).at() + 5 > old(cur).bytes().len() ==> r is None,
{
    let tag = match cur.read_u8() {
        Some(t) => t,
        None => {
            return None;
        },
    };
    let bits = match cur.read_u32_le() {
        Some(b) => b,
        None => {
            return None;
        },
    };
    let m = scalar_from_bits(bits);
    Some(
        match tag {
            1 => Lp::Length(m),
            2 => Lp::Percent(m),
            _ => Lp::Length(0),
        },
    )
}

/// Decode a grid placement: tag byte, then a raw 16-bit value.
pub fn decode_grid_placement<'a>(cur: &mut Cursor<'a>) -> (r: Option<GridPlacement>)
    requires
        old(cur).wf(),
    ensures
        final(cur).wf(),
        final(cur).bytes() == old(cur).bytes(),
        old(cur).at() + 3 <= old(cur).bytes().len() ==> {
            &&& r == Some(spec_placement_at(old(cur).bytes(), old(cur).at()))
            &&& final(cur).at() == old(cur).at() + 3
        },
        old(cur).at() + 3 > old(cur).bytes().len() ==> r is None,
{
    let ghost s = cur.bytes();
    let ghost p = cur.at();
    let tag = match cur.read_u8() {
        Some(t) => t,
        None => {
            return None;
        },
    };
    let v = match cur.read_i16_le() {
        Some(b) => b,
        None => {
            return None;
        },
    };
    let raw: u16 = if v < 0 {
        ((v as i32) + 65536) as u16
    } else {
        v as u16
    };
    proof {
        if p + 3 <= s.len() {
            assert(raw == le16(s, p + 1) as u16);
        }
    }
    Some(
        match tag {
            0 => GridPlacement::Auto,
            1 => GridPlacement::Line(v),
            2 => GridPlacement::Span(raw),
            _ => GridPlacement::Auto,
        },
    )
}

/// Write an enum field (ids 0 through 12) into the record.
fn set_enum_field(st: &mut StyleRecord, id: usize, v: u8)
    requires
        id <= 12,
    ensures
        final(st).model() == spec_apply_enum(old(st).model(), id as int, v),
{
    if id == 0 {
        st.display = decode_display(v);
    } else if id == 1 {
        st.position = decode_position(v);
    } else if id == 2 {
        st.overflow_x = decode_overflow(v);
    } else if id == 3 {
        st.overflow_y = decode_overflow(v);
    } else if id == 4 {
        st.flex_direction = decode_flex_direction(v);
    } else if id == 5 {
        st.flex_wrap = decode_flex_wrap(v);
    } else if id == 6 {
        st.justify_content = Some(decode_justify_content(v));
    } else if id == 7 {
        st.justify_items = Some(decode_align_items(v));
    } else if id == 8 {
        st.align_items = Some(decode_align_items(v));
    } else if id == 9 {
        st.align_content = Some(decode_align_content(v));
    } else if id == 10 {
        st.align_self = decode_align_self_opt(v);
    } else if id == 11 {
        st.justify_self = decode_align_self_opt(v);
    } else {
        st.grid_auto_flow = decode_grid_auto_flow(v);
    }
}

/// Write a scalar field (ids 13 through 15) into the record.
fn set_scalar_field(st: &mut StyleRecord, id: usize, m: i64)
    requires
        13 <= id <= 15,
    ensures
        final(st).model() == spec_apply_scalar(old(st).model(), id as int, m),
{
    if id == 13 {
        st.flex_grow = m;
    } else if id == 14 {
        st.flex_shrink = m;
    } else {
        st.aspect_ratio = Some(m);
    }
}

/// Write a dimension field (ids 16 through 22) into the record.
fn set_dim_field(st: &mut StyleRecord, id: usize, d: Dimension)
    requires
        16 <= id <= 22,
    ensures
        final(st).model() == spec_apply_dim(old(st).model(), id as int, d),
{
    if id == 16 {
        st.width = d;
    } else if id == 17 {
        st.height = d;
    } else if id == 18 {
        st.min_width = d;
    } else if id == 19 {
        st.min_height = d;
    } else if id == 20 {
        st.max_width = d;
    } else if id == 21 {
        st.max_height = d;
    } else {
        st.flex_basis = d;
    }
}

/// Write a margin or inset field (ids 23 through 30) into the record.
fn set_lpa_field(st: &mut StyleRecord, id: usize, d: Lpa)
    requires
        23 <= id <= 30,
    ensures
        final(st).model() == spec_apply_lpa(old(st).model(), id as int, d),
{
    if id == 23 {
        st.margin_top = d;
    } else if id == 24 {
        st.margin_right = d;
    } else if id == 25 {
        st.margin_bottom = d;
    } else if id == 26 {
        st.margin_left = d;
    } else if id == 27 {
        st.inset_top = d;
    } else if id == 28 {
        st.inset_right = d;
    } else if id == 29 {
        st.inset_bottom = d;
    } else {
        st.inset_left = d;
    }
}

/// Write a padding, border or gap field (ids 31 through 40) into the record.
fn set_lp_field(st: &mut StyleRecord, id: usize, d: Lp)
    requires
        31 <= id <= 40,
    ensures
        final(st).model() == spec_apply_lp(old(st).model(), id as int, d),
{
    if id == 31 {
        st.padding_top = d;
    } else if id == 32 {
        st.padding_right = d;
    } else if id == 33 {
        st.padding_bottom = d;
    } else if id == 34 {
        st.padding_left = d;
    } else if id == 35 {
        st.border_top = d;
    } else if id == 36 {
        st.border_right = d;
    } else if id == 37 {
        st.border_bottom = d;
    } else if id == 38 {
        st.border_left = d;
    } else if id == 39 {
        st.column_gap = d;
    } else {
        st.row_gap = d;
    }
}

/// The byte ranges of a vector of strings, for relating parsed track
/// lists to the texts they came from.
pub open spec fn strs_bytes(v: Seq<String>) -> Seq<Seq<u8>> {
    v.map(|i: int, s: String| vstd::utf8::encode_utf8(s@))
}

/// The template components named by a sequence of texts.
pub open spec fn spec_templates_of(bs: Seq<Seq<u8>>) -> Seq<TrackTemplateSpec> {
    bs.map(|i: int, b: Seq<u8>| spec_parse_template(b, 0, b.len() as int))
}

/// The track sizing functions named by a sequence of texts.
pub open spec fn spec_sizings_of(bs: Seq<Seq<u8>>) -> Seq<TrackSizing> {
    bs.map(|i: int, b: Seq<u8>| spec_parse_track_sizing(b, 0, b.len() as int))
}

/// `m` with its four track-list fields replaced.
pub open spec fn with_tracks(
    m: StyleModel,
    tc: Seq<TrackTemplateSpec>,
    tr: Seq<TrackTemplateSpec>,
    ac: Seq<TrackSizing>,
    ar: Seq<TrackSizing>,
) -> StyleModel {
    StyleModel {
        grid_template_columns: tc,
        grid_template_rows: tr,
        grid_auto_columns: ac,
        grid_auto_rows: ar,
        ..m
    }
}

/// The four track-list arrays of a side-channel object, as plain strings;
/// an absent member is an empty list.
pub struct GridLists {
    pub template_columns: Vec<String>,
    pub template_rows: Vec<String>,
    pub auto_columns: Vec<String>,
    pub auto_rows: Vec<String>,
}

/// Parse each text of a list as a template component.
pub fn parse_templates(list: &Vec<String>) -> (r: Vec<TrackTemplate>)
    ensures
        templates_model(r@) == spec_templates_of(strs_bytes(list@)),
{
    let mut out: Vec<TrackTemplate> = Vec::new();
    let n = list.len();
    let mut k: usize = 0;
    while k < n
        invariant
            n == list@.len(),
            k <= n,
            out@.len() == k,
            forall|j: int|
                0 <= j < k ==> (#[trigger] out@[j]).model() == spec_parse_template(
                    vstd::utf8::encode_utf8(list@[j]@),
                    0,
                    vstd::utf8::encode_utf8(list@[j]@).len() as int,
                ),
        decreases n - k,
    {
        let b = list[k].as_str().as_bytes();
        let t = parse_template_range(b, 0, b.len());
        out.push(t);
        k = k + 1;
    }
    proof {
        assert(templates_model(out@) =~= spec_templates_of(strs_bytes(list@)));
    }
    out
}

/// Parse each text of a list as a track sizing function.
pub fn parse_sizings(list: &Vec<String>) -> (r: Vec<TrackSizing>)
    ensures
        r@ == spec_sizings_of(strs_bytes(list@)),
{
    let mut out: Vec<TrackSizing> = Vec::new();
    let n = list.len();
    let mut k: usize = 0;
    while k < n
        invariant
            n == list@.len(),
            k <= n,
            out@.len() == k,
            forall|j: int|
                0 <= j < k ==> #[trigger] out@[j] == spec_parse_track_sizing(
                    vstd::utf8::encode_utf8(list@[j]@),
                    0,
                    vstd::utf8::encode_utf8(list@[j]@).len() as int,
                ),
        decreases n - k,
    {
        let b = list[k].as_str().as_bytes();
        let t = parse_track_sizing_range(b, 0, b.len());
        out.push(t);
        k = k + 1;
    }
    proof {
        assert(out@ =~= spec_sizings_of(strs_bytes(list@)));
    }
    out
}

/// Replace the track-list fields named by a non-empty list with the
/// parse of that list; empty lists leave their field untouched.
pub fn apply_grid_lists(st: &mut StyleRecord, g: &GridLists)
    ensures
        final(st).model() == with_tracks(
            old(st).model(),
            if g.template_columns@.len() > 0 {
                spec_templates_of(strs_bytes(g.template_columns@))
            } else {
                old(st).model().grid_template_columns
            },
            if g.template_rows@.len() > 0 {
                spec_templates_of(strs_bytes(g.template_rows@))
            } else {
                old(st).model().grid_template_rows
            },
            if g.auto_columns@.len() > 0 {
                spec_sizings_of(strs_bytes(g.auto_columns@))
            } else {
                old(st).model().grid_auto_columns
            },
            if g.auto_rows@.len() > 0 {
                spec_sizings_of(strs_bytes(g.auto_rows@))
            } else {
                old(st).model().grid_auto_rows
            },
        ),
{
    if g.template_columns.len() > 0 {
        st.grid_template_columns = parse_templates(&g.template_columns);
    }
    if g.template_rows.len() > 0 {
        st.grid_template_rows = parse_templates(&g.template_rows);
    }
    if g.auto_columns.len() > 0 {
        st.grid_auto_columns = parse_sizings(&g.auto_columns);
    }
    if g.auto_rows.len() > 0 {
        st.grid_auto_rows = parse_sizings(&g.auto_rows);
    }
}

/// Whether side-channel bytes are well formed: valid UTF-8 holding a
/// JSON object whose four optional track members are arrays of strings.
pub open spec fn sideband_wellformed(sb: Seq<u8>) -> bool {
    &&& vstd::utf8::valid_utf8(sb)
    &&& sideband_member_ok(vstd::utf8::decode_utf8(sb), "gridTemplateColumns"@)
    &&& sideband_member_ok(vstd::utf8::decode_utf8(sb), "gridTemplateRows"@)
    &&& sideband_member_ok(vstd::utf8::decode_utf8(sb), "gridAutoColumns"@)
    &&& sideband_member_ok(vstd::utf8::decode_utf8(sb), "gridAutoRows"@)
}

/// The style after a well-formed side-channel is applied: each non-empty
/// member replaces its track field, the others keep the base value.
pub open spec fn spec_apply_sideband(base: StyleModel, sb: Seq<u8>) -> StyleModel {
    let t = vstd::utf8::decode_utf8(sb);
    with_tracks(
        base,
        if sideband_member(t, "gridTemplateColumns"@).len() > 0 {
            spec_templates_of(sideband_member(t, "gridTemplateColumns"@))
        } else {
            base.grid_template_columns
        },
        if sideband_member(t, "gridTemplateRows"@).len() > 0 {
            spec_templates_of(sideband_member(t, "gridTemplateRows"@))
        } else {
            base.grid_template_rows
        },
        if sideband_member(t, "gridAutoColumns"@).len() > 0 {
            spec_sizings_of(sideband_member(t, "gridAutoColumns"@))
        } else {
            base.grid_auto_columns
        },
        if sideband_member(t, "gridAutoRows"@).len() > 0 {
            spec_sizings_of(sideband_member(t, "gridAutoRows"@))
        } else {
            base.grid_auto_rows
        },
    )
}

/// The style a node's side-channel produces: absent side-channels leave
/// the style as decoded.
pub open spec fn styled_with_sideband(base: StyleModel, sb: Seq<u8>) -> StyleModel {
    if sb.len() == 0 {
        base
    } else {
        spec_apply_sideband(base, sb)
    }
}

/// Interpret side-channel bytes and apply the track lists they carry.
/// Succeeds exactly on well-formed side-channels; on failure the style
/// is untouched and the error names what was wrong.
fn apply_sideband(st: &mut StyleRecord, sb: &[u8], node: usize) -> (r: Result<(), DecodeError>)
    ensures
        r is Ok <==> sideband_wellformed(sb@),
        r is Ok ==> final(st).model() == spec_apply_sideband(old(st).model(), sb@),
        r matches Err(e) ==> *final(st) == *old(st) && e == (if !vstd::utf8::valid_utf8(sb@) {
            DecodeError::SidebandUtf8 { node }
        } else {
            DecodeError::SidebandJson { node }
        }),
{
    let text = match crate::jsonv::utf8_to_str(sb) {
        Some(t) => t,
        None => {
            return Err(DecodeError::SidebandUtf8 { node });
        },
    };
    let template_columns = match crate::jsonv::sideband_member_list(text, "gridTemplateColumns") {
        Some(l) => l,
        None => {
            return Err(DecodeError::SidebandJson { node });
        },
    };
    let template_rows = match crate::jsonv::sideband_member_list(text, "gridTemplateRows") {
        Some(l) => l,
        None => {
            return Err(DecodeError::SidebandJson { node });
        },
    };
    let auto_columns = match crate::jsonv::sideband_member_list(text, "gridAutoColumns") {
        Some(l) => l,
        None => {
            return Err(DecodeError::SidebandJson { node });
        },
    };
    let auto_rows = match crate::jsonv::sideband_member_list(text, "gridAutoRows") {
        Some(l) => l,
        None => {
            return Err(DecodeError::SidebandJson { node });
        },
    };
    let g = GridLists { template_columns, template_rows, auto_columns, auto_rows };
    apply_grid_lists(st, &g);
    Ok(())
}

/// Write a grid placement field (ids 41 through 44) into the record.
fn set_placement_field(st: &mut StyleRecord, id: usize, d: GridPlacement)
    requires
        41 <= id <= 44,
    ensures
        final(st).model() == spec_apply_placement(old(st).model(), id as int, d),
{
    if id == 41 {
        st.grid_column_start = d;
    } else if id == 42 {
        st.grid_column_end = d;
    } else if id == 43 {
        st.grid_row_start = d;
    } else {
        st.grid_row_end = d;
    }
}

/// The style the present fields produce from the baseline, with the
/// position after them.
pub open spec fn spec_fields_from_base(s: Seq<u8>, bitmap: u64, p: int) -> Option<
    (StyleModel, int),
> {
    spec_decode_fields(s, bitmap, 0, p, base_model())
}

/// What one node's record in the buffer denotes: its style before the
/// side-channel is applied, its child indices, the side-channel byte
/// range, and the position after the node.
pub struct NodeCore {
    pub style: StyleModel,
    pub children: Seq<int>,
    pub sb_lo: int,
    pub sb_hi: int,
    pub end: int,
}

/// Decode one node record starting at byte `p`: presence bitmap, child
/// indices, side-channel length and bytes, then the present fields in
/// ascending bit order. `None` when the buffer ends inside the node.
#[verifier::opaque]
pub open spec fn spec_node_core(s: Seq<u8>, p: int) -> Option<NodeCore> {
    if p + 8 > s.len() {
        None
    } else {
        let bitmap = le64(s, p) as u64;
        let p1 = p + 8;
        if p1 + 2 > s.len() {
            None
        } else {
            let cc = le16(s, p1);
            let p2 = p1 + 2;
            if p2 + 2 * cc > s.len() {
                None
            } else {
                let p3 = p2 + 2 * cc;
                if p3 + 2 > s.len() {
                    None
                } else {
                    let sl = le16(s, p3);
                    let p4 = p3 + 2;
                    if p4 + sl > s.len() {
                        None
                    } else {
                        let p5 = p4 + sl;
                        match spec_fields_from_base(s, bitmap, p5) {
                            None => None,
                            Some((st, end)) => Some(
                                NodeCore {
                                    style: st,
                                    children: Seq::new(cc as nat, |j: int| le16(s, p2 + 2 * j)),
                                    sb_lo: p4,
                                    sb_hi: p5,
                                    end,
                                },
                            ),
                        }
                    }
                }
            }
        }
    }
}

/// The integer values of a vector of indices.
pub open spec fn usizes(v: Seq<usize>) -> Seq<int> {
    v.map(|k: int, x: usize| x as int)
}

/// Whether a node's side-channel decodes: it is absent, or its bytes
/// are well formed.
pub open spec fn core_sideband_ok(s: Seq<u8>, c: NodeCore) -> bool {
    c.sb_lo == c.sb_hi || sideband_wellformed(s.subrange(c.sb_lo, c.sb_hi))
}

/// How a decoded node relates to what its bytes denote: the children
/// match, and the style is the decoded fields with the side-channel's
/// track lists applied.
#[verifier::opaque]
pub open spec fn node_matches(s: Seq<u8>, n: DecodedNode, c: NodeCore) -> bool {
    &&& usizes(n.children@) == c.children
    &&& n.style.model() == styled_with_sideband(c.style, s.subrange(c.sb_lo, c.sb_hi))
}

/// Decode a single node at the cursor.
#[verifier::rlimit(50)]
fn decode_node<'a>(cur: &mut Cursor<'a>, node: usize) -> (r: Result<DecodedNode, DecodeError>)
    requires
        old(cur).wf(),
    ensures
        final(cur).wf(),
        final(cur).bytes() == old(cur).bytes(),
        r matches Ok(n) ==> spec_node_core(old(cur).bytes(), old(cur).at()) matches Some(c)
            && node_matches(old(cur).bytes(), n, c) && final(cur).at() == c.end,
        r is Ok <==> (spec_node_core(old(cur).bytes(), old(cur).at()) matches Some(c)
            && core_sideband_ok(old(cur).bytes(), c)),
{
    let ghost s = old(cur).bytes();
    let ghost p0 = old(cur).at();
    let bitmap = match cur.read_u64_le() {
        Some(b) => b,
        None => {
            proof {
                reveal(spec_node_core);
                assert(spec_node_core(s, p0) is None);
            }
            return Err(
                DecodeError::Truncated {
                    node,
                    offset: cur.position(),
                    need: 8,
                    have: cur.remaining(),
                },
            );
        },
    };
    let child_count = match cur.read_u16_le() {
        Some(v) => v as usize,
        None => {
            proof {
                reveal(spec_node_core);
                assert(spec_node_core(s, p0) is None);
            }
            return Err(
                DecodeError::Truncated {
                    node,
                    offset: cur.position(),
                    need: 2,
                    have: cur.remaining(),
                },
            );
        },
    };
    let ghost p2 = cur.at();
    let mut children: Vec<usize> = Vec::new();
    let mut c: usize = 0;
    while c < child_count
        invariant
            cur.wf(),
            cur.bytes() == s,
            c <= child_count,
            cur.at() == p2 + 2 * c,
            s == old(cur).bytes(),
            p0 == old(cur).at(),
            0 <= p0,
            p2 == p0 + 10,
            p0 + 10 <= s.len(),
            child_count == le16(s, p0 + 8),
            children@.len() == c,
            forall|j: int| 0 <= j < c ==> children@[j] == le16(s, p2 + 2 * j),
        decreases child_count - c,
    {
        let idx = match cur.read_u16_le() {
            Some(v) => v as usize,
            None => {
                proof {
                    reveal(spec_node_core);
                    assert(p2 + 2 * child_count > s.len());
                    assert(spec_node_core(s, p0) is None);
                }
                return Err(
                    DecodeError::Truncated {
                        node,
                        offset: cur.position(),
                        need: 2,
                        have: cur.remaining(),
                    },
                );
            },
        };
        children.push(idx);
        c = c + 1;
    }
    let sb_len = match cur.read_u16_le() {
        Some(v) => v as usize,
        None => {
            proof {
                reveal(spec_node_core);
                assert(spec_node_core(s, p0) is None);
            }
            return Err(
                DecodeError::Truncated {
                    node,
                    offset: cur.position(),
                    need: 2,
                    have: cur.remaining(),
                },
            );
        },
    };
    let sb_lo = cur.position();
    if !cur.skip(sb_len) {
        proof {
            reveal(spec_node_core);
            assert(spec_node_core(s, p0) is None);
        }
        return Err(
            DecodeError::Truncated {
                node,
                offset: sb_lo,
                need: sb_len,
                have: cur.remaining(),
            },
        );
    }
    let mut style = StyleRecord::base();
    let ghost p5 = cur.at();
    let ghost total = spec_fields_from_base(s, bitmap, p5);
    let ghost core_shape = (match total {
        None => None::<NodeCore>,
        Some((st, end)) => Some(
            NodeCore {
                style: st,
                children: Seq::new(
                    child_count as nat,
                    |j: int| le16(s, p0 + 10 + 2 * j),
                ),
                sb_lo: p5 - sb_len,
                sb_hi: p5,
                end,
            },
        ),
    });
    proof {
        reveal(spec_node_core);
        assert(spec_decode_fields(s, bitmap, 0, p5, base_model()) == total);
        assert(spec_node_core(s, p0) == core_shape);
    }
    let mut id: usize = 0;
    while id < 45
        invariant
            cur.wf(),
            cur.bytes() == s,
            s == old(cur).bytes(),
            p0 == old(cur).at(),
            id <= 45,
            spec_decode_fields(s, bitmap, id as int, cur.at(), style.model()) == total,
            total == spec_fields_from_base(s, bitmap, p5),
            spec_node_core(s, p0) == core_shape,
            sb_lo + sb_len == p5 <= s.len(),
            core_shape == (match total {
                None => None::<NodeCore>,
                Some((st, end)) => Some(
                    NodeCore {
                        style: st,
                        children: Seq::new(
                            child_count as nat,
                            |j: int| le16(s, p0 + 10 + 2 * j),
                        ),
                        sb_lo: p5 - sb_len,
                        sb_hi: p5,
                        end,
                    },
                ),
            }),
        decreases 45 - id,
    {
        let present = ((bitmap >> (id as u64)) & 1) == 1;
        let ghost p_before = cur.at();
        let ghost m_before = style.model();
        if present {
            if id <= 12 {
                match cur.read_u8() {
                    Some(v) => set_enum_field(&mut style, id, v),
                    None => {
                        return Err(
                            DecodeError::Truncated {
                                node,
                                offset: cur.position(),
                                need: 1,
                                have: cur.remaining(),
                            },
                        );
                    },
                }
            } else if id <= 15 {
                match cur.read_u32_le() {
                    Some(bits) => {
                        let m = scalar_from_bits(bits);
                        set_scalar_field(&mut style, id, m);
                    },
                    None => {
                        return Err(
                            DecodeError::Truncated {
                                node,
                                offset: cur.position(),
                                need: 4,
                                have: cur.remaining(),
                            },
                        );
                    },
                }
            } else if id <= 22 {
                match decode_dimension(cur) {
                    Some(d) => set_dim_field(&mut style, id, d),
                    None => {
                        return Err(
                            DecodeError::Truncated {
                                node,
                                offset: cur.position(),
                                need: 5,
                                have: cur.remaining(),
                            },
                        );
                    },
                }
            } else if id <= 30 {
                match decode_lpa(cur) {
                    Some(d) => set_lpa_field(&mut style, id, d),
                    None => {
                        return Err(
                            DecodeError::Truncated {
                                node,
                                offset: cur.position(),
                                need: 5,
                                have: cur.remaining(),
                            },
                        );
                    },
                }
            } else if id <= 40 {
                match decode_lp(cur) {
                    Some(d) => set_lp_field(&mut style, id, d),
                    None => {
                        return Err(
                            DecodeError::Truncated {
                                node,
                                offset: cur.position(),
                                need: 5,
                                have: cur.remaining(),
                            },
                        );
                    },
                }
            } else {
                match decode_grid_placement(cur) {
                    Some(d) => set_placement_field(&mut style, id, d),
                    None => {
                        return Err(
                            DecodeError::Truncated {
                                node,
                                offset: cur.position(),
                                need: 3,
                                have: cur.remaining(),
                            },
                        );
                    },
                }
            }
            proof {
                assert(style.model() == spec_apply_field(s, p_before, id as int, m_before));
            }
        }
        id = id + 1;
    }
    proof {
        assert(total == Some((style.model(), cur.at())));
    }
    let ghost core = spec_node_core(s, p0)->Some_0;
    let ghost sb_range = s.subrange(core.sb_lo, core.sb_hi);
    if sb_len > 0 {
        let sb = cur.sub(sb_lo, sb_lo + sb_len);
        proof {
            assert(sb@ == sb_range);
        }
        match apply_sideband(&mut style, sb, node) {
            Ok(()) => (),
            Err(e) => {
                proof {
                    assert(!sideband_wellformed(sb_range));
                    assert(!core_sideband_ok(s, core));
                }
                return Err(e);
            },
        }
        proof {
            assert(style.model() == spec_apply_sideband(core.style, sb_range));
            assert(style.model() == styled_with_sideband(core.style, sb_range));
        }
    } else {
        proof {
            assert(sb_range =~= Seq::<u8>::empty());
            assert(style.model() == styled_with_sideband(core.style, sb_range));
        }
    }
    let n = DecodedNode { style, children };
    proof {
        reveal(node_matches);
        assert(usizes(n.children@) =~= core.children);
        assert(node_matches(s, n, core));
        assert(core_sideband_ok(s, core));
    }
    Ok(n)
}

/// Prefix a decoded tail with already-decoded nodes.
pub open spec fn combine(done: Seq<NodeCore>, rest: Option<Seq<NodeCore>>) -> Option<
    Seq<NodeCore>,
> {
    match rest {
        None => None,
        Some(r) => Some(done + r),
    }
}

/// Decode `n` consecutive node records starting at byte `p`.
pub open spec fn spec_batch_nodes(s: Seq<u8>, p: int, n: int) -> Option<Seq<NodeCore>>
    decreases n,
{
    if n <= 0 {
        Some(Seq::empty())
    } else {
        match spec_node_core(s, p) {
            None => None,
            Some(c) => match spec_batch_nodes(s, c.end, n - 1) {
                None => None,
                Some(rest) => Some(seq![c] + rest),
            },
        }
    }
}

/// What the fixed header denotes: the node count, or the error that
/// rejects the buffer.
pub open spec fn spec_header(s: Seq<u8>) -> Result<int, DecodeError> {
    if s.len() < 4 {
        Err(DecodeError::ShortMagic)
    } else if !(s[0] == 0x54 && s[1] == 0x41 && s[2] == 0x46 && s[3] == 0x46) {
        Err(DecodeError::BadMagic { b0: s[0], b1: s[1], b2: s[2], b3: s[3] })
    } else if s.len() < 5 {
        Err(DecodeError::ShortVersion)
    } else if s[4] != 1 {
        Err(DecodeError::BadVersion { version: s[4] })
    } else if s.len() < 9 {
        Err(DecodeError::ShortCount)
    } else {
        Ok(le32(s, 5))
    }
}

/// Decode a binary-encoded batch of nodes.
///
/// Nodes are stored in topological order (leaves first, root last); each
/// node's `children` holds indices into the returned vector. The whole
/// batch is rejected on a bad header, a truncated buffer, or a malformed
/// side-channel; no partial result is returned.
#[verifier::rlimit(100)]
pub fn decode_batch_binary(data: &[u8]) -> (r: Result<Vec<DecodedNode>, DecodeError>)
    ensures
        spec_header(data@) matches Err(e) ==> r == Err::<Vec<DecodedNode>, DecodeError>(e),
        spec_header(data@) matches Ok(count) ==> (r is Ok <==> (spec_batch_nodes(data@, 9, count)
            matches Some(cores) && (forall|j: int|
            0 <= j < count ==> core_sideband_ok(data@, #[trigger] cores[j])))),
        r matches Ok(v) ==> spec_header(data@) matches Ok(count) && spec_batch_nodes(
            data@,
            9,
            count,
        ) matches Some(cores) && v@.len() == count && cores.len() == count && (forall|j: int|
            0 <= j < count ==> node_matches(data@, #[trigger] v@[j], cores[j])),
{
    if data.len() < 4 {
        return Err(DecodeError::ShortMagic);
    }
    let b0 = data[0];
    let b1 = data[1];
    let b2 = data[2];
    let b3 = data[3];
    if !(b0 == 0x54 && b1 == 0x41 && b2 == 0x46 && b3 == 0x46) {
        return Err(DecodeError::BadMagic { b0, b1, b2, b3 });
    }
    if data.len() < 5 {
        return Err(DecodeError::ShortVersion);
    }
    let version = data[4];
    if version != 1 {
        return Err(DecodeError::BadVersion { version });
    }
    if data.len() < 9 {
        return Err(DecodeError::ShortCount);
    }
    let count = (data[5] as u32) + 256 * (data[6] as u32) + 65536 * (data[7] as u32) + 16777216
        * (data[8] as u32);
    let count = count as usize;
    let mut cur = Cursor::new(data);
    let skipped = cur.skip(9);
    proof {
        assert(skipped);
    }
    let mut nodes: Vec<DecodedNode> = Vec::new();
    let ghost mut done: Seq<NodeCore> = Seq::empty();
    let ghost total = spec_batch_nodes(data@, 9, count as int);
    let mut i: usize = 0;
    proof {
        match total {
            Some(full) => {
                assert(Seq::<NodeCore>::empty() + full =~= full);
            },
            None => {},
        }
        assert(combine(done, spec_batch_nodes(data@, cur.at(), count as int)) == total);
    }
    while i < count
        invariant
            cur.wf(),
            cur.bytes() == data@,
            i <= count,
            spec_header(data@) == Ok::<int, DecodeError>(count as int),
            nodes@.len() == i,
            done.len() == i,
            combine(done, spec_batch_nodes(data@, cur.at(), count - i)) == total,
            total == spec_batch_nodes(data@, 9, count as int),
            forall|j: int| 0 <= j < i ==> node_matches(data@, #[trigger] nodes@[j], done[j]),
            forall|j: int| 0 <= j < i ==> core_sideband_ok(data@, #[trigger] done[j]),
        decreases count - i,
    {
        let ghost p_node = cur.at();
        proof {
            assert(spec_batch_nodes(data@, p_node, count - i) == (match spec_node_core(
                data@,
                p_node,
            ) {
                None => None::<Seq<NodeCore>>,
                Some(c) => match spec_batch_nodes(data@, c.end, count - i - 1) {
                    None => None::<Seq<NodeCore>>,
                    Some(rest) => Some(seq![c] + rest),
                },
            }));
        }
        match decode_node(&mut cur, i) {
            Ok(n) => {
                proof {
                    assert(spec_node_core(data@, p_node) is Some);
                }
                let ghost core = spec_node_core(data@, p_node)->Some_0;
                let ghost done0 = done;
                nodes.push(n);
                proof {
                    done = done0.push(core);
                    if spec_batch_nodes(data@, core.end, count - i - 1) is Some {
                        let rest = spec_batch_nodes(data@, core.end, count - i - 1)->Some_0;
                        assert(done =~= done0 + seq![core]);
                        assert(done + rest =~= done0 + (seq![core] + rest));
                    }
                }
            },
            Err(e) => {
                proof {
                    if total is Some {
                        let full = total->Some_0;
                        if forall|j: int|
                            0 <= j < count ==> core_sideband_ok(data@, #[trigger] full[j]) {
                            let c = spec_node_core(data@, p_node)->Some_0;
                            let rest = spec_batch_nodes(data@, c.end, count - i - 1)->Some_0;
                            assert(full == done + (seq![c] + rest));
                            assert(full[i as int] == c);
                            assert(core_sideband_ok(data@, c));
                            assert(false);
                        }
                    }
                }
                return Err(e);
            },
        }
        i = i + 1;
    }
    proof {
        assert(spec_batch_nodes(data@, cur.at(), 0) == Some(Seq::<NodeCore>::empty()));
        assert(done + Seq::<NodeCore>::empty() =~= done);
        assert(total == Some(done));
    }
    Ok(nodes)
}

} // verus!
