//! Spatial index and handle arena tests.

use canvas_layout::arena::{batch_children_valid, NodeArena};
use canvas_layout::spatial::SpatialIndex;
use canvas_layout::style::{DecodedNode, StyleRecord};

#[test]
fn test_new() {
    let idx = SpatialIndex::new(256);
    assert_eq!(idx.count(), 0);
}

#[test]
fn test_upsert_and_count() {
    let mut idx = SpatialIndex::new(256);
    idx.upsert(1, 0, 0, 100, 100);
    idx.upsert(2, 300, 300, 50, 50);
    assert_eq!(idx.count(), 2);
}

#[test]
fn test_upsert_update() {
    let mut idx = SpatialIndex::new(256);
    idx.upsert(1, 0, 0, 100, 100);
    idx.upsert(1, 500, 500, 100, 100);
    assert_eq!(idx.count(), 1);
    let r = idx.query_viewport(-10, -10, 200, 200);
    assert!(r.is_empty());
    let r = idx.query_viewport(400, 400, 700, 700);
    assert_eq!(r.len(), 1);
    assert_eq!(r[0], 1);
}

#[test]
fn test_remove() {
    let mut idx = SpatialIndex::new(256);
    idx.upsert(1, 0, 0, 100, 100);
    idx.remove(1);
    assert_eq!(idx.count(), 0);
    let r = idx.query_viewport(-10, -10, 200, 200);
    assert!(r.is_empty());
}

#[test]
fn test_query_viewport() {
    let mut idx = SpatialIndex::new(256);
    idx.upsert(1, 10, 10, 80, 80);
    idx.upsert(2, 500, 500, 80, 80);
    idx.upsert(3, 1000, 1000, 80, 80);
    let r = idx.query_viewport(0, 0, 600, 600);
    assert_eq!(r.len(), 2);
    assert!(r.contains(&1));
    assert!(r.contains(&2));
}

#[test]
fn test_query_rect_lasso() {
    let mut idx = SpatialIndex::new(256);
    idx.upsert(1, 100, 100, 50, 50);
    idx.upsert(2, 200, 200, 50, 50);
    idx.upsert(3, 400, 400, 50, 50);
    let r = idx.query_rect(50, 50, 260, 260);
    assert_eq!(r.len(), 2);
    assert!(r.contains(&1));
    assert!(r.contains(&2));
    assert!(!r.contains(&3));
}

#[test]
fn test_query_point() {
    let mut idx = SpatialIndex::new(256);
    idx.upsert(1, 100, 100, 50, 50);
    idx.upsert(2, 200, 200, 50, 50);
    let r = idx.query_point(125, 125);
    assert_eq!(r.len(), 1);
    assert_eq!(r[0], 1);
    let r = idx.query_point(0, 0);
    assert!(r.is_empty());
}

#[test]
fn test_batch_upsert() {
    let mut idx = SpatialIndex::new(256);
    let data: Vec<i64> = vec![
        1, 0, 0, 100, 100,
        2, 300, 300, 50, 50,
        3, 600, 600, 80, 80,
    ];
    idx.batch_upsert(&data);
    assert_eq!(idx.count(), 3);
}

#[test]
fn test_clear() {
    let mut idx = SpatialIndex::new(256);
    idx.upsert(1, 0, 0, 100, 100);
    idx.upsert(2, 300, 300, 50, 50);
    idx.clear();
    assert_eq!(idx.count(), 0);
}

#[test]
fn test_zero_size_element() {
    let mut idx = SpatialIndex::new(256);
    idx.upsert(1, 0, 0, 0, 100);
    assert_eq!(idx.count(), 0);
    idx.upsert(2, 0, 0, 100, 0);
    assert_eq!(idx.count(), 0);
}

#[test]
fn test_element_spanning_multiple_cells() {
    let mut idx = SpatialIndex::new(256);
    idx.upsert(1, 200, 200, 200, 200);
    assert_eq!(idx.count(), 1);
    let r = idx.query_viewport(0, 0, 250, 250);
    assert_eq!(r.len(), 1);
    let r = idx.query_viewport(300, 300, 450, 450);
    assert_eq!(r.len(), 1);
    let r = idx.query_viewport(0, 0, 500, 500);
    assert_eq!(r.len(), 1);
}

#[test]
fn test_negative_coordinates() {
    let mut idx = SpatialIndex::new(256);
    idx.upsert(1, -100, -100, 50, 50);
    idx.upsert(2, -300, -300, 50, 50);
    let r = idx.query_viewport(-150, -150, -40, -40);
    assert_eq!(r.len(), 1);
    assert_eq!(r[0], 1);
}

#[test]
fn test_default_cell_size() {
    let idx = SpatialIndex::new(0);
    assert_eq!(idx.count(), 0);
    let mut idx = SpatialIndex::new(-10);
    // Behaves as with the default cell size: one cell-crossing box.
    idx.upsert(1, 200, 200, 200, 200);
    let r = idx.query_point(300, 300);
    assert_eq!(r.len(), 1);
}

#[test]
fn test_remove_and_reuse_handle() {
    let mut arena = NodeArena::new();
    let h0 = arena.alloc_handle(100);
    let h1 = arena.alloc_handle(200);
    assert_eq!(h0, 0);
    assert_eq!(h1, 1);
    arena.release(h0);
    let h2 = arena.alloc_handle(300);
    assert_eq!(h2, 0);
    assert_eq!(arena.count(), 2);
}

#[test]
fn test_build_tree_batch_handle_reuse_after_remove() {
    let mut arena = NodeArena::new();
    let h0 = arena.alloc_handle(7);
    arena.release(h0);
    assert_eq!(arena.count(), 0);
    let h1 = arena.alloc_handle(8);
    assert_eq!(h1, h0, "freed handle should be reused by subsequent allocation");
    assert_eq!(arena.count(), 1);
}

#[test]
fn test_freed_handle_operations_are_noops() {
    let mut arena = NodeArena::new();
    let h0 = arena.alloc_handle(5);
    arena.release(h0);
    assert_eq!(arena.resolve(h0), None);
    assert_eq!(arena.release(h0), None);
    assert_eq!(arena.resolve(42), None);
}

#[test]
fn test_build_tree_batch_child_index_out_of_range() {
    let leaf = DecodedNode { style: StyleRecord::base(), children: vec![] };
    let bad = DecodedNode { style: StyleRecord::base(), children: vec![5] };
    let nodes = vec![leaf, bad];
    assert!(!batch_children_valid(&nodes), "out-of-range child index should be rejected");

    let leaf2 = DecodedNode { style: StyleRecord::base(), children: vec![] };
    let root = DecodedNode { style: StyleRecord::base(), children: vec![0] };
    let good = vec![leaf2, root];
    assert!(batch_children_valid(&good));
}
