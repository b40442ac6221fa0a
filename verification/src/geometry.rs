//! Plane geometry in fixed-point coordinates.
pub mod grid;
pub mod rect;
pub mod vector;
