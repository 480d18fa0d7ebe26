//! Binary and textual decoder tests.

use canvas_layout::binary::{decode_batch_binary, DecodeError};
use canvas_layout::scalar::scalar_from_bits;
use canvas_layout::style::{
    AlignItems, AlignSelf, Dimension, Display, FlexDirection, GridPlacement, JustifyContent, Lp,
    Lpa,
};
use canvas_layout::textual::{convert_style, StyleInput};

struct NodeEncoder {
    bitmap: u64,
    children: Vec<u16>,
    grid_json: Vec<u8>,
    fields: Vec<(u8, Vec<u8>)>,
}

impl NodeEncoder {
    fn new() -> Self {
        NodeEncoder { bitmap: 0, children: Vec::new(), grid_json: Vec::new(), fields: Vec::new() }
    }

    fn add(mut self, id: u8, bytes: Vec<u8>) -> Self {
        self.bitmap |= 1u64 << id;
        self.fields.push((id, bytes));
        self
    }

    fn children(mut self, idx: &[u16]) -> Self {
        self.children = idx.to_vec();
        self
    }

    fn grid_json(mut self, json: &str) -> Self {
        self.grid_json = json.as_bytes().to_vec();
        self
    }

    fn enum_field(self, id: u8, v: u8) -> Self {
        self.add(id, vec![v])
    }

    fn f32_field(self, id: u8, v: f32) -> Self {
        self.add(id, v.to_le_bytes().to_vec())
    }

    fn dim_field(self, id: u8, tag: u8, v: f32) -> Self {
        let mut b = vec![tag];
        b.extend_from_slice(&v.to_le_bytes());
        self.add(id, b)
    }

    fn placement_field(self, id: u8, tag: u8, v: i16) -> Self {
        let mut b = vec![tag];
        b.extend_from_slice(&v.to_le_bytes());
        self.add(id, b)
    }

    fn build(mut self) -> Vec<u8> {
        self.fields.sort_by_key(|(id, _)| *id);
        let mut out = Vec::new();
        out.extend_from_slice(&self.bitmap.to_le_bytes());
        out.extend_from_slice(&(self.children.len() as u16).to_le_bytes());
        for &c in &self.children {
            out.extend_from_slice(&c.to_le_bytes());
        }
        out.extend_from_slice(&(self.grid_json.len() as u16).to_le_bytes());
        out.extend_from_slice(&self.grid_json);
        for (_, bytes) in &self.fields {
            out.extend_from_slice(bytes);
        }
        out
    }
}

fn build_taff(nodes: &[Vec<u8>]) -> Vec<u8> {
    let mut out = Vec::new();
    out.extend_from_slice(&[0x54, 0x41, 0x46, 0x46]);
    out.push(1u8);
    out.extend_from_slice(&(nodes.len() as u32).to_le_bytes());
    for n in nodes {
        out.extend_from_slice(n);
    }
    out
}

#[test]
fn test_decode_simple_flex() {
    let node_bytes = NodeEncoder::new()
        .enum_field(0, 0)
        .enum_field(4, 0)
        .enum_field(6, 2)
        .enum_field(8, 2)
        .dim_field(16, 1, 200.0)
        .dim_field(17, 1, 100.0)
        .build();
    let buf = build_taff(&[node_bytes]);
    let decoded = decode_batch_binary(&buf).expect("decode should succeed");
    assert_eq!(decoded.len(), 1, "should decode exactly 1 node");
    let style = &decoded[0].style;
    assert!(decoded[0].children.is_empty(), "leaf node should have no children");
    assert_eq!(style.display, Display::Flex, "display should be Flex");
    assert_eq!(style.flex_direction, FlexDirection::Row, "flexDirection should be Row");
    assert_eq!(
        style.justify_content,
        Some(JustifyContent::Center),
        "justifyContent should be Center"
    );
    assert_eq!(style.align_items, Some(AlignItems::Center), "alignItems should be Center");
    assert_eq!(style.width, Dimension::Length(200_000), "width should be 200px");
    assert_eq!(style.height, Dimension::Length(100_000), "height should be 100px");
}

#[test]
fn test_decode_dimension_types() {
    let leaf0 = NodeEncoder::new().dim_field(16, 0, 0.0).dim_field(17, 2, 0.5).build();
    let leaf1 = NodeEncoder::new()
        .dim_field(16, 1, 150.0)
        .dim_field(18, 2, 0.1)
        .dim_field(20, 0, 0.0)
        .build();
    let container = NodeEncoder::new()
        .children(&[0, 1])
        .enum_field(0, 0)
        .dim_field(23, 0, 0.0)
        .dim_field(26, 1, 16.0)
        .dim_field(24, 2, 0.05)
        .build();
    let buf = build_taff(&[leaf0, leaf1, container]);
    let decoded = decode_batch_binary(&buf).expect("decode should succeed");
    assert_eq!(decoded.len(), 3);
    let s0 = &decoded[0].style;
    assert_eq!(s0.width, Dimension::Auto, "leaf0 width should be auto");
    assert_eq!(s0.height, Dimension::Percent(500), "leaf0 height should be 50%");
    let s1 = &decoded[1].style;
    assert_eq!(s1.width, Dimension::Length(150_000), "leaf1 width should be 150px");
    assert_eq!(s1.min_width, Dimension::Percent(100), "leaf1 minWidth should be 10%");
    assert_eq!(s1.max_width, Dimension::Auto, "leaf1 maxWidth should be auto");
    let s2 = &decoded[2].style;
    assert_eq!(decoded[2].children, vec![0, 1], "container children should be [0,1]");
    assert_eq!(s2.display, Display::Flex, "container display should be Flex");
    assert_eq!(s2.margin_top, Lpa::Auto, "marginTop should be auto");
    assert_eq!(s2.margin_left, Lpa::Length(16_000), "marginLeft should be 16px");
    assert_eq!(s2.margin_right, Lpa::Percent(50), "marginRight should be 5%");
}

#[test]
fn test_decode_grid_placement() {
    let node_bytes = NodeEncoder::new()
        .enum_field(0, 1)
        .placement_field(41, 0, 0)
        .placement_field(42, 1, 3)
        .placement_field(43, 2, 2)
        .placement_field(44, 0, 0)
        .build();
    let buf = build_taff(&[node_bytes]);
    let decoded = decode_batch_binary(&buf).expect("decode should succeed");
    let style = &decoded[0].style;
    assert_eq!(style.display, Display::Grid);
    assert_eq!(style.grid_column_start, GridPlacement::Auto, "grid_column.start should be auto");
    assert_eq!(style.grid_column_end, GridPlacement::Line(3), "grid_column.end should be line 3");
    assert_eq!(style.grid_row_start, GridPlacement::Span(2), "grid_row.start should be span 2");
    assert_eq!(style.grid_row_end, GridPlacement::Auto, "grid_row.end should be auto");
}

#[test]
fn test_decode_grid_json_sideband() {
    let grid_json = r#"{"gridTemplateColumns":["1fr","1fr","1fr"],"gridTemplateRows":["auto"],"gridAutoColumns":[],"gridAutoRows":[]}"#;
    let node_bytes = NodeEncoder::new().enum_field(0, 1).grid_json(grid_json).build();
    let buf = build_taff(&[node_bytes]);
    let decoded = decode_batch_binary(&buf).expect("decode should succeed");
    let style = &decoded[0].style;
    assert_eq!(style.display, Display::Grid);
    assert_eq!(style.grid_template_columns.len(), 3, "should have 3 template columns");
    assert_eq!(style.grid_template_rows.len(), 1, "should have 1 template row");
}

#[test]
fn test_decode_error_invalid_magic() {
    let buf = [0x00, 0x00, 0x00, 0x00, 1u8, 0, 0, 0, 0];
    let result = decode_batch_binary(&buf);
    assert!(result.is_err(), "invalid magic should return Err");
    let msg = result.unwrap_err().message();
    assert!(msg.contains("invalid magic"), "error message should mention 'invalid magic', got: {msg}");
}

#[test]
fn test_decode_error_wrong_version() {
    let mut buf = Vec::new();
    buf.extend_from_slice(&[0x54, 0x41, 0x46, 0x46]);
    buf.push(99u8);
    buf.extend_from_slice(&0u32.to_le_bytes());
    let result = decode_batch_binary(&buf);
    assert!(result.is_err(), "wrong version should return Err");
    let msg = result.unwrap_err().message();
    assert!(
        msg.contains("unsupported version"),
        "error message should mention 'unsupported version', got: {msg}"
    );
}

#[test]
fn test_decode_error_truncated() {
    let mut buf = Vec::new();
    buf.extend_from_slice(&[0x54, 0x41, 0x46, 0x46]);
    buf.push(1u8);
    buf.extend_from_slice(&1u32.to_le_bytes());
    let result = decode_batch_binary(&buf);
    assert!(result.is_err(), "truncated buffer should return Err");
    assert!(matches!(result.unwrap_err(), DecodeError::Truncated { .. }));
}

#[test]
fn test_decode_lp_and_align_self() {
    let node_bytes = NodeEncoder::new()
        .dim_field(31, 1, 8.0)
        .dim_field(32, 2, 0.1)
        .dim_field(35, 1, 2.0)
        .dim_field(39, 1, 12.0)
        .dim_field(40, 2, 0.02)
        .enum_field(10, 3)
        .enum_field(11, 0)
        .build();
    let buf = build_taff(&[node_bytes]);
    let decoded = decode_batch_binary(&buf).expect("decode should succeed");
    let style = &decoded[0].style;
    assert_eq!(style.padding_top, Lp::Length(8_000));
    assert_eq!(style.padding_right, Lp::Percent(100));
    assert_eq!(style.border_top, Lp::Length(2_000));
    assert_eq!(style.column_gap, Lp::Length(12_000));
    assert_eq!(style.row_gap, Lp::Percent(20));
    assert_eq!(style.align_self, Some(AlignSelf::Center));
    assert_eq!(style.justify_self, None, "justify_self=0 should be None (auto)");
}

#[test]
fn test_decode_flex_item_properties() {
    let node_bytes = NodeEncoder::new()
        .f32_field(13, 2.0)
        .f32_field(14, 0.5)
        .dim_field(22, 1, 100.0)
        .f32_field(15, 16.0 / 9.0)
        .build();
    let buf = build_taff(&[node_bytes]);
    let decoded = decode_batch_binary(&buf).expect("decode should succeed");
    let style = &decoded[0].style;
    assert_eq!(style.flex_grow, 2_000);
    assert_eq!(style.flex_shrink, 500);
    assert_eq!(style.flex_basis, Dimension::Length(100_000));
    assert!(style.aspect_ratio.is_some(), "aspect_ratio should be Some");
    let ar = style.aspect_ratio.unwrap();
    assert!((ar - 1_778).abs() <= 1, "aspect_ratio should be ~1.778 in thousandths");
}

#[test]
fn test_decode_empty_batch() {
    let mut buf = Vec::new();
    buf.extend_from_slice(&[0x54, 0x41, 0x46, 0x46]);
    buf.push(1u8);
    buf.extend_from_slice(&0u32.to_le_bytes());
    let decoded = decode_batch_binary(&buf).expect("empty batch should succeed");
    assert!(decoded.is_empty(), "empty batch should decode to zero nodes");
}

#[test]
fn test_scalar_from_bits_rounds_to_thousandths() {
    assert_eq!(scalar_from_bits(200.0f32.to_bits()), 200_000);
    assert_eq!(scalar_from_bits(0.5f32.to_bits()), 500);
    assert_eq!(scalar_from_bits(0.7f32.to_bits()), 700);
    assert_eq!(scalar_from_bits(0.1f32.to_bits()), 100);
    assert_eq!(scalar_from_bits((-16.0f32).to_bits()), -16_000);
    assert_eq!(scalar_from_bits(0.0f32.to_bits()), 0);
}

#[test]
fn test_convert_style_fields() {
    let mut input = StyleInput::empty();
    input.display = Some("grid".to_string());
    input.width = Some("200px".to_string());
    input.height = Some("50%".to_string());
    input.margin_top = Some("auto".to_string());
    input.margin_left = Some("16px".to_string());
    input.padding_top = Some("8px".to_string());
    input.flex_grow = Some("2".to_string());
    input.grid_row_start = Some("span 2".to_string());
    input.grid_column_end = Some("3".to_string());
    input.justify_content = Some("space-between".to_string());
    input.align_self = Some("auto".to_string());
    let r = convert_style(&input);
    assert_eq!(r.display, Display::Grid);
    assert_eq!(r.width, Dimension::Length(200_000));
    assert_eq!(r.height, Dimension::Percent(500));
    assert_eq!(r.margin_top, Lpa::Auto);
    assert_eq!(r.margin_left, Lpa::Length(16_000));
    assert_eq!(r.padding_top, Lp::Length(8_000));
    assert_eq!(r.flex_grow, 2_000);
    assert_eq!(r.grid_row_start, GridPlacement::Span(2));
    assert_eq!(r.grid_column_end, GridPlacement::Line(3));
    assert_eq!(r.justify_content, Some(JustifyContent::SpaceBetween));
    assert_eq!(r.align_self, None);
    // untouched members keep their baseline values
    assert_eq!(r.position, canvas_layout::style::Position::Relative);
    assert_eq!(r.flex_shrink, 1_000);
    assert_eq!(r.max_width, Dimension::Auto);
}

#[test]
fn test_cross_decoder_equivalence() {
    // The same logical style through the binary path and the textual path.
    let node_bytes = NodeEncoder::new()
        .enum_field(0, 0)
        .enum_field(4, 1)
        .dim_field(16, 1, 200.0)
        .dim_field(17, 2, 0.5)
        .dim_field(23, 0, 0.0)
        .dim_field(31, 1, 8.0)
        .build();
    let buf = build_taff(&[node_bytes]);
    let decoded = decode_batch_binary(&buf).expect("decode should succeed");
    let bin = &decoded[0].style;

    let mut input = StyleInput::empty();
    input.display = Some("flex".to_string());
    input.flex_direction = Some("column".to_string());
    input.width = Some("200px".to_string());
    input.height = Some("50%".to_string());
    input.margin_top = Some("auto".to_string());
    input.padding_top = Some("8px".to_string());
    let text = convert_style(&input);

    assert_eq!(bin.display, text.display);
    assert_eq!(bin.flex_direction, text.flex_direction);
    assert_eq!(bin.width, text.width);
    assert_eq!(bin.height, text.height);
    assert_eq!(bin.margin_top, text.margin_top);
    assert_eq!(bin.padding_top, text.padding_top);
    assert_eq!(bin, &text);
}

#[test]
fn test_decode_error_sideband_not_json() {
    let node_bytes = NodeEncoder::new().enum_field(0, 1).grid_json("not valid json").build();
    let buf = build_taff(&[node_bytes]);
    let result = decode_batch_binary(&buf);
    assert!(result.is_err(), "malformed side-channel text should return Err");
    assert!(matches!(result.unwrap_err(), DecodeError::SidebandJson { node: 0 }));
}

#[test]
fn test_decode_error_sideband_wrong_member_shape() {
    let node_bytes = NodeEncoder::new()
        .enum_field(0, 1)
        .grid_json(r#"{"gridTemplateColumns": 5}"#)
        .build();
    let buf = build_taff(&[node_bytes]);
    let result = decode_batch_binary(&buf);
    assert!(result.is_err(), "a non-array track member should return Err");
    assert!(matches!(result.unwrap_err(), DecodeError::SidebandJson { node: 0 }));
}

#[test]
fn test_decode_error_sideband_not_utf8() {
    // Build the node record by hand so the side-channel can carry raw,
    // non-UTF-8 bytes.
    let mut raw = Vec::new();
    raw.extend_from_slice(&1u64.to_le_bytes()); // bitmap: display present
    raw.extend_from_slice(&0u16.to_le_bytes()); // no children
    raw.extend_from_slice(&2u16.to_le_bytes()); // side-channel length 2
    raw.extend_from_slice(&[0xFF, 0xFE]); // invalid UTF-8
    raw.push(1); // display = grid
    let buf = build_taff(&[raw]);
    let result = decode_batch_binary(&buf);
    assert!(result.is_err(), "non-UTF-8 side-channel should return Err");
    assert!(matches!(result.unwrap_err(), DecodeError::SidebandUtf8 { node: 0 }));
}

#[test]
fn test_decode_error_messages_carry_positions() {
    // Truncated inside node 0: header promises one node, nothing follows.
    let mut buf = Vec::new();
    buf.extend_from_slice(&[0x54, 0x41, 0x46, 0x46]);
    buf.push(1u8);
    buf.extend_from_slice(&1u32.to_le_bytes());
    let msg = decode_batch_binary(&buf).unwrap_err().message();
    assert!(msg.contains("node 0"), "message should name the node, got: {msg}");
    assert!(msg.contains("byte 9"), "message should name the offset, got: {msg}");
}
