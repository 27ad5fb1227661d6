//! One horizontal strip of a canvas and the width consumed in it.

use vstd::prelude::*;

verus! {

/// A strip of fixed height at a fixed vertical offset. `end_x` is the first
/// free column; it only ever grows.
#[derive(Clone, Copy, Debug)]
pub struct Row {
    pub y: u32,
    pub width: u32,
    pub height: u32,
    pub end_x: u32,
}

impl Row {
    /// Whether a `w` by `h` rectangle fits in what is left of the row: the row
    /// is high enough and the free width suffices.
    pub open spec fn fits(&self, w: u32, h: u32) -> bool {
        self.height >= h && self.width - self.end_x >= w
    }

    /// Whether the row is a candidate for a `w` by `h` rectangle: it fits, and
    /// the row is less than twice as high as the rectangle.
    pub open spec fn is_candidate(&self, w: u32, h: u32) -> bool {
        self.fits(w, h) && self.height < 2 * h
    }

    /// An empty row at offset `y`.
    pub fn new(y: u32, width: u32, height: u32) -> (row: Row)
        ensures
            row == (Row { y, width, height, end_x: 0 }),
    {
        Row { y, width, height, end_x: 0 }
    }

    /// Tests whether a `w` by `h` rectangle fits in what is left of the row.
    pub fn would_fit(&self, w: u32, h: u32) -> (b: bool)
        ensures
            b == self.fits(w, h),
            b <==> self.height >= h && self.width - self.end_x >= w,
    {
        if self.height >= h {
            self.end_x <= self.width && self.width - self.end_x >= w
        } else {
            false
        }
    }

    /// Takes `width` columns from the row and returns where they start.
    pub fn reserve(&mut self, width: u32) -> (x: u32)
        requires
            old(self).end_x + width <= old(self).width,
        ensures
            x == old(self).end_x,
            *final(self) == (Row { end_x: (old(self).end_x + width) as u32, ..*old(self) }),
    {
        let x = self.end_x;
        self.end_x = self.end_x + width;
        x
    }
}

} // verus!
