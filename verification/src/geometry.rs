//! Rectangles in physical screen pixels.
use vstd::prelude::*;

verus! {

/// Identifier of a native window.
pub type WindowId = u64;

/// Identifier of a monitor.
pub type MonitorId = i64;

/// An axis-aligned rectangle; `width` and `height` are never negative for a
/// rectangle that is on screen, but the type does not enforce it.
#[derive(Clone, Copy, Debug, PartialEq, Eq, Structural)]
pub struct Rect {
    pub x: i32,
    pub y: i32,
    pub width: i32,
    pub height: i32,
}

impl Rect {
    /// A rectangle from its top-left corner and its size.
    pub fn new(x: i32, y: i32, width: i32, height: i32) -> (r: Rect)
        ensures
            r == (Rect { x, y, width, height }),
    {
        Rect { x, y, width, height }
    }

    /// The column just past the right edge.
    pub open spec fn right_edge(self) -> int {
        self.x + self.width
    }

    /// The row just past the bottom edge.
    pub open spec fn bottom_edge(self) -> int {
        self.y + self.height
    }

    /// Both far edges are representable.
    pub open spec fn edges_fit(self) -> bool {
        &&& i32::MIN <= self.right_edge() <= i32::MAX
        &&& i32::MIN <= self.bottom_edge() <= i32::MAX
    }

    /// Whether both far edges are representable.
    pub fn has_edges(&self) -> (r: bool)
        ensures
            r == self.edges_fit(),
    {
        self.x.checked_add(self.width).is_some() && self.y.checked_add(self.height).is_some()
    }

    /// The column just past the right edge.
    pub fn right(&self) -> (r: i32)
        requires
            i32::MIN <= self.right_edge() <= i32::MAX,
        ensures
            r == self.right_edge(),
    {
        self.x + self.width
    }

    /// The row just past the bottom edge.
    pub fn bottom(&self) -> (r: i32)
        requires
            i32::MIN <= self.bottom_edge() <= i32::MAX,
        ensures
            r == self.bottom_edge(),
    {
        self.y + self.height
    }
}

/// The far edges are as far from the corner as the rectangle is wide and high.
pub proof fn law_edges_are_a_size_apart(r: Rect)
    ensures
        r.right_edge() - r.x == r.width,
        r.bottom_edge() - r.y == r.height,
        r.edges_fit() <==> -0x8000_0000 <= r.x + r.width <= 0x7fff_ffff && -0x8000_0000 <= r.y
            + r.height <= 0x7fff_ffff,
{
}

} // verus!
