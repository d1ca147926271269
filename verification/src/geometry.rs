//! Rectangles of atlas pixels.

use vstd::prelude::*;

verus! {

/// An axis-aligned rectangle of atlas pixels.
///
/// The rectangle is half-open: it covers the pixels `(x, y)` with
/// `min_x <= x < max_x` and `min_y <= y < max_y`.
#[derive(Clone, Copy, Debug, PartialEq, Eq, Structural)]
pub struct CellRect {
    pub min_x: i32,
    pub min_y: i32,
    pub max_x: i32,
    pub max_y: i32,
}

impl CellRect {
    /// Horizontal extent in pixels.
    pub open spec fn spec_width(self) -> int {
        self.max_x - self.min_x
    }

    /// Vertical extent in pixels.
    pub open spec fn spec_height(self) -> int {
        self.max_y - self.min_y
    }

    /// The rectangle covers at least one pixel.
    pub open spec fn is_nonempty(self) -> bool {
        self.min_x < self.max_x && self.min_y < self.max_y
    }

    /// The pixel `(x, y)` lies in the rectangle.
    pub open spec fn covers(self, x: int, y: int) -> bool {
        self.min_x <= x < self.max_x && self.min_y <= y < self.max_y
    }

    /// The two rectangles have a common interior.
    pub open spec fn overlaps(self, other: CellRect) -> bool {
        &&& self.min_x < other.max_x
        &&& other.min_x < self.max_x
        &&& self.min_y < other.max_y
        &&& other.min_y < self.max_y
    }

    /// The rectangle lies in the region `0..width` by `0..height`.
    pub open spec fn inside(self, width: int, height: int) -> bool {
        &&& 0 <= self.min_x
        &&& self.max_x <= width
        &&& 0 <= self.min_y
        &&& self.max_y <= height
    }

    /// The rectangle offers room for a `width` by `height` image at its
    /// minimum corner.
    pub open spec fn holds(self, width: int, height: int) -> bool {
        self.min_x + width <= self.max_x && self.min_y + height <= self.max_y
    }

    pub fn new(min_x: i32, min_y: i32, max_x: i32, max_y: i32) -> (rect: CellRect)
        ensures
            rect == (CellRect { min_x, min_y, max_x, max_y }),
    {
        CellRect { min_x, min_y, max_x, max_y }
    }

    pub fn width(&self) -> (w: i64)
        ensures
            w == self.spec_width(),
    {
        self.max_x as i64 - self.min_x as i64
    }

    pub fn height(&self) -> (h: i64)
        ensures
            h == self.spec_height(),
    {
        self.max_y as i64 - self.min_y as i64
    }

    /// Decides whether the two rectangles share any interior.
    pub fn intersects(&self, other: &CellRect) -> (r: bool)
        ensures
            r == self.overlaps(*other),
    {
        self.min_x < other.max_x && other.min_x < self.max_x && self.min_y < other.max_y
            && other.min_y < self.max_y
    }

    /// Decides whether the pixel `(x, y)` lies in the rectangle.
    pub fn contains(&self, x: i32, y: i32) -> (r: bool)
        ensures
            r == self.covers(x as int, y as int),
    {
        self.min_x <= x && x < self.max_x && self.min_y <= y && y < self.max_y
    }
}

/// Two rectangles that cover a pixel each overlap exactly when some pixel
/// lies in both.
pub proof fn lemma_overlap_is_shared_pixel(a: CellRect, b: CellRect)
    requires
        a.is_nonempty(),
        b.is_nonempty(),
    ensures
        a.overlaps(b) <==> exists|x: int, y: int| a.covers(x, y) && b.covers(x, y),
{
    if a.overlaps(b) {
        let x = if a.min_x >= b.min_x { a.min_x as int } else { b.min_x as int };
        let y = if a.min_y >= b.min_y { a.min_y as int } else { b.min_y as int };
        assert(a.covers(x, y) && b.covers(x, y));
    }
}

} // verus!
