//! Block layout and grid track tests.

use canvas_layout::block::{
    block_layout, clamp_size, collapse_margins, BlockChild, BlockDisplay, VerticalAlign,
};
use canvas_layout::grid::{calculate_cell_positions, parse_tracks};

fn make_block(width: Option<i64>, height: Option<i64>, m_top: i64, m_bottom: i64) -> BlockChild {
    BlockChild {
        display: BlockDisplay::Block,
        width,
        height,
        margin_top: m_top,
        margin_right: 0,
        margin_bottom: m_bottom,
        margin_left: 0,
        creates_bfc: false,
        pad_border_v: 0,
        pad_border_h: 0,
        min_width: None,
        max_width: None,
        min_height: None,
        max_height: None,
        content_width: 100,
        content_height: height.unwrap_or(0).max(0),
        vertical_align: VerticalAlign::Baseline,
        baseline: 0,
        line_height: None,
    }
}

fn make_inline_block(width: i64, height: i64, valign: VerticalAlign) -> BlockChild {
    BlockChild {
        display: BlockDisplay::InlineBlock,
        width: Some(width),
        height: Some(height),
        margin_top: 0,
        margin_right: 0,
        margin_bottom: 0,
        margin_left: 0,
        creates_bfc: false,
        pad_border_v: 0,
        pad_border_h: 0,
        min_width: None,
        max_width: None,
        min_height: None,
        max_height: None,
        content_width: width.max(0),
        content_height: height.max(0),
        vertical_align: valign,
        baseline: height.max(0) * 8 / 10,
        line_height: None,
    }
}

#[test]
fn test_vertical_stacking() {
    let data = vec![make_block(None, Some(100), 0, 0), make_block(None, Some(200), 0, 0)];
    let result = block_layout(&data, 400, 800, false, false, 0);
    assert_eq!(result.boxes[0].y, 0);
    assert_eq!(result.boxes[0].height, 100);
    assert_eq!(result.boxes[1].y, 100);
    assert_eq!(result.boxes[1].height, 200);
}

#[test]
fn test_margin_collapse_positive() {
    let data = vec![make_block(None, Some(100), 0, 20), make_block(None, Some(100), 30, 0)];
    let result = block_layout(&data, 400, 800, false, false, 0);
    assert_eq!(result.boxes[1].y, 130);
}

#[test]
fn test_margin_collapse_negative() {
    let data = vec![make_block(None, Some(100), 0, -10), make_block(None, Some(100), -20, 0)];
    let result = block_layout(&data, 400, 800, false, false, 0);
    assert_eq!(result.boxes[1].y, 80);
}

#[test]
fn test_margin_collapse_mixed() {
    let data = vec![make_block(None, Some(100), 0, 20), make_block(None, Some(100), -10, 0)];
    let result = block_layout(&data, 400, 800, false, false, 0);
    assert_eq!(result.boxes[1].y, 110);
}

#[test]
fn test_bfc_blocks_collapse() {
    let mut child2 = make_block(None, Some(100), 30, 0);
    child2.creates_bfc = true;
    let data = vec![make_block(None, Some(100), 0, 20), child2];
    let result = block_layout(&data, 400, 800, false, false, 0);
    assert_eq!(result.boxes[1].y, 150);
}

#[test]
fn test_inline_block_horizontal() {
    let data = vec![
        make_inline_block(50, 30, VerticalAlign::Baseline),
        make_inline_block(60, 40, VerticalAlign::Baseline),
    ];
    let result = block_layout(&data, 400, 400, false, false, 0);
    assert_eq!(result.boxes[0].x, 0);
    assert_eq!(result.boxes[1].x, 50);
}

#[test]
fn test_inline_block_line_wrap() {
    let data = vec![
        make_inline_block(200, 30, VerticalAlign::Baseline),
        make_inline_block(250, 40, VerticalAlign::Baseline),
    ];
    let result = block_layout(&data, 400, 400, false, false, 0);
    assert_eq!(result.boxes[0].x, 0);
    assert_eq!(result.boxes[1].x, 0);
    assert!(result.boxes[1].y > 0);
}

#[test]
fn test_empty_block() {
    let mut empty = make_block(None, None, 10, 15);
    empty.display = BlockDisplay::EmptyBlock;
    empty.content_height = 0;
    let data = vec![
        make_block(None, Some(100), 0, 20),
        empty,
        make_block(None, Some(100), 5, 0),
    ];
    let result = block_layout(&data, 400, 800, false, false, 0);
    assert_eq!(result.boxes[1].height, 0);
}

#[test]
fn test_parent_child_collapse_top() {
    let data = vec![make_block(None, Some(100), 20, 0)];
    let result = block_layout(&data, 400, 800, true, false, 0);
    assert_eq!(result.first_margin_top, 20);
}

#[test]
fn test_collapse_margins_fn() {
    assert_eq!(collapse_margins(20, 30), 30);
    assert_eq!(collapse_margins(-10, -20), -20);
    assert_eq!(collapse_margins(20, -10), 10);
}

#[test]
fn test_parse_tracks_fr() {
    let result = parse_tracks("1fr 2fr", 300, 0);
    assert_eq!(result.len(), 2);
    assert_eq!(result[0], 100);
    assert_eq!(result[1], 200);
}

#[test]
fn test_parse_tracks_px() {
    let result = parse_tracks("100px 200px", 400, 0);
    assert_eq!(result.len(), 2);
    assert_eq!(result[0], 100);
    assert_eq!(result[1], 200);
}

#[test]
fn test_parse_tracks_mixed() {
    let result = parse_tracks("100px 1fr 2fr", 400, 0);
    assert_eq!(result.len(), 3);
    assert_eq!(result[0], 100);
    assert_eq!(result[1], 100);
    assert_eq!(result[2], 200);
}

#[test]
fn test_parse_tracks_percent() {
    let result = parse_tracks("50% 1fr", 400, 0);
    assert_eq!(result.len(), 2);
    assert_eq!(result[0], 200);
    assert_eq!(result[1], 200);
}

#[test]
fn test_parse_tracks_auto() {
    let result = parse_tracks("auto auto", 400, 0);
    assert_eq!(result.len(), 2);
    assert_eq!(result[0], 200);
    assert_eq!(result[1], 200);
}

#[test]
fn test_parse_tracks_with_gap() {
    let result = parse_tracks("1fr 1fr", 400, 20);
    assert_eq!(result.len(), 2);
    assert_eq!(result[0], 190);
    assert_eq!(result[1], 190);
}

#[test]
fn test_parse_tracks_empty() {
    let result = parse_tracks("", 400, 0);
    assert_eq!(result.len(), 0);
}

#[test]
fn test_cell_positions_basic() {
    let tracks_x = vec![100i64, 200];
    let tracks_y = vec![50i64, 60];
    let result = calculate_cell_positions(&tracks_x, &tracks_y, 0, 0, 4);
    assert_eq!(result.len(), 4);
    assert_eq!(result[0].x, 0);
    assert_eq!(result[0].y, 0);
    assert_eq!(result[0].width, 100);
    assert_eq!(result[0].height, 50);
    assert_eq!(result[1].x, 100);
    assert_eq!(result[1].y, 0);
    assert_eq!(result[1].width, 200);
    assert_eq!(result[2].x, 0);
    assert_eq!(result[2].y, 50);
    assert_eq!(result[3].x, 100);
    assert_eq!(result[3].y, 50);
}

#[test]
fn test_cell_positions_with_gap() {
    let tracks_x = vec![100i64, 200];
    let tracks_y = vec![50i64, 60];
    let result = calculate_cell_positions(&tracks_x, &tracks_y, 10, 20, 4);
    assert_eq!(result[1].x, 110);
    assert_eq!(result[2].y, 70);
}

#[test]
fn test_cell_positions_empty() {
    let tracks_x = vec![100i64];
    let tracks_y = vec![50i64];
    let result = calculate_cell_positions(&tracks_x, &tracks_y, 0, 0, 0);
    assert_eq!(result.len(), 0);
}

#[test]
fn test_clamp_min_wins_on_conflict() {
    assert_eq!(clamp_size(75, Some(100), Some(50)), 100, "min wins when min > max");
    assert_eq!(clamp_size(10, Some(20), Some(200)), 20);
    assert_eq!(clamp_size(300, Some(20), Some(200)), 200);
    assert_eq!(clamp_size(75, None, None), 75);
    assert_eq!(clamp_size(75, None, Some(50)), 50);
    assert_eq!(clamp_size(75, Some(100), None), 100);
}

#[test]
fn test_clamp_conflict_in_block_flow() {
    // A block whose width limits conflict resolves to the minimum.
    let mut child = make_block(Some(75), Some(10), 0, 0);
    child.min_width = Some(100);
    child.max_width = Some(50);
    let result = block_layout(&vec![child], 400, 800, false, false, 0);
    assert_eq!(result.boxes[0].width, 100);
}

#[test]
fn test_collapse_margins_extremes() {
    assert_eq!(collapse_margins(i64::MAX, i64::MIN), -1);
    assert_eq!(collapse_margins(i64::MAX, i64::MAX), i64::MAX);
    assert_eq!(collapse_margins(i64::MIN, i64::MIN), i64::MIN);
    assert_eq!(collapse_margins(i64::MIN, i64::MAX), -1);
}
