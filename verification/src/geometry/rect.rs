//! Axis-aligned rectangles.
use vstd::prelude::*;
use crate::geometry::vector::Point2;

verus! {

/// An axis-aligned rectangle given by its four edges.
#[derive(Clone, Copy, Debug, PartialEq, Eq)]
pub struct Rect {
    pub left: i64,
    pub right: i64,
    pub bottom: i64,
    pub top: i64,
}

impl Rect {
    /// The edges are in order on both axes.
    pub open spec fn wf(&self) -> bool {
        self.left <= self.right && self.bottom <= self.top
    }

    /// The width.
    pub open spec fn w(&self) -> int {
        self.right - self.left
    }

    /// The height.
    pub open spec fn h(&self) -> int {
        self.top - self.bottom
    }

    /// `p` lies inside the rectangle or on its border.
    pub open spec fn contains(&self, p: Point2) -> bool {
        self.left <= p.x <= self.right && self.bottom <= p.y <= self.top
    }
}

} // verus!
