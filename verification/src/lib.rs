//! Computation core of a canvas-based visual design surface.
//!
//! The library decodes style trees from a compact binary wire format or from
//! structured JSON, manages a handle-indexed node arena over an external
//! flexbox/grid solver, lays out block-formatting contexts (margin collapsing,
//! line boxes), resolves grid track templates to pixel sizes, and answers
//! spatial queries over element bounding boxes through a grid-hash index.
//!
//! Scalar style values are carried as fixed-point integers in thousandths of
//! a CSS pixel (see [`scalar`]), which keeps every computation exact and lets
//! the geometry engines work on plain integers.

pub mod arena;
pub mod binary;
pub mod block;
pub mod scalar;
pub mod spatial;
pub mod grammar;
pub mod grid;
pub mod jsonv;
pub mod style;
pub mod textual;
