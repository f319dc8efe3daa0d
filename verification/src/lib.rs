//! Axis-aligned rectangles on an integer grid, for tile-based geometry.
//!
//! The co-ordinate plane has `x` growing rightward and `y` growing
//! upward, so a rect's `top` is its largest `y` and its derived
//! `bottom` is its smallest. Besides geometric queries (overlap,
//! containment, corners, edges) and in-place moves, a rect can hand out
//! a cursor over the cells it covers.

pub mod interior;
pub mod point;
pub mod rect;

pub use crate::interior::InteriorIter;
pub use crate::point::Point;
pub use crate::rect::Rect;
