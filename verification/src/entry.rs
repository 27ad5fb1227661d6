//! A source image with its name, and where it was placed.

use vstd::prelude::*;
use image::DynamicImage;
use crate::layout::Item;
use crate::pixels::dimensions;
use crate::pixels::image_height;
use crate::pixels::image_width;

verus! {

/// An image to place, or one that has been placed. While it waits it holds its
/// pixels; once placed it keeps only its name and its rectangle.
pub struct Entry {
    pub filename: String,
    pub image: Option<DynamicImage>,
    pub x: u32,
    pub y: u32,
    pub width: u32,
    pub height: u32,
}

/// The name and rectangle of an entry.
pub ghost struct Placement {
    pub filename: Seq<char>,
    pub x: int,
    pub y: int,
    pub width: int,
    pub height: int,
}

/// Whether two rectangles share a point of positive area.
pub open spec fn overlaps(a: Placement, b: Placement) -> bool {
    &&& a.x < b.x + b.width
    &&& b.x < a.x + a.width
    &&& a.y < b.y + b.height
    &&& b.y < a.y + a.height
}

/// Whether the point `(x, y)` lies in a rectangle.
pub open spec fn covers(p: Placement, x: int, y: int) -> bool {
    p.x <= x < p.x + p.width && p.y <= y < p.y + p.height
}

impl View for Entry {
    type V = Placement;

    open spec fn view(&self) -> Placement {
        Placement {
            filename: self.filename@,
            x: self.x as int,
            y: self.y as int,
            width: self.width as int,
            height: self.height as int,
        }
    }
}

impl Entry {
    /// Whether the entry holds its pixels and its size is theirs.
    pub open spec fn has_image(&self) -> bool {
        match self.image {
            Some(img) => image_width(img) == self.width && image_height(img) == self.height,
            None => false,
        }
    }

    /// What the packing rule reads of the entry.
    pub open spec fn item(&self) -> Item {
        Item {
            filename: self.filename@,
            width: self.width,
            height: self.height,
            image: self.image,
        }
    }

    /// An entry without pixels, at the origin.
    pub fn new(filename: &str, width: u32, height: u32) -> (e: Entry)
        ensures
            e@ == (Placement {
                filename: filename@,
                x: 0,
                y: 0,
                width: width as int,
                height: height as int,
            }),
            e.image is None,
    {
        Entry { filename: filename.to_owned(), image: None, x: 0, y: 0, width, height }
    }

    /// Hands the entry its pixels and takes its size from them.
    pub fn set_image(&mut self, image: DynamicImage)
        ensures
            final(self).image == Some(image),
            final(self).width == image_width(image),
            final(self).height == image_height(image),
            final(self).has_image(),
            final(self).filename == old(self).filename,
            final(self).x == old(self).x,
            final(self).y == old(self).y,
    {
        let (w, h) = dimensions(&image);
        self.width = w;
        self.height = h;
        self.image = Some(image);
    }

    /// Moves the entry's top-left corner.
    pub fn set_position(&mut self, x: u32, y: u32)
        ensures
            final(self).x == x,
            final(self).y == y,
            final(self).filename == old(self).filename,
            final(self).image == old(self).image,
            final(self).width == old(self).width,
            final(self).height == old(self).height,
    {
        self.x = x;
        self.y = y;
    }
}

} // verus!
