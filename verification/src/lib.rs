//! Verified layout and edge-geometry engine for small typed graphs.
//!
//! Nodes are placed on a circle, edges become trimmed line segments with
//! arrowhead flags derived from the edge's direction, and the scene
//! assembler emits an ordered list of drawable primitives (edges first,
//! then nodes and labels) for an external renderer. Coordinates are
//! fixed-point scalars (see `fp`), so every arithmetic step is exact and
//! verified; trigonometry comes from integer-only CORDIC routines.

pub mod fp;
pub mod geometry;
pub mod layout;
pub mod model;
pub mod scene;
pub mod trig;
