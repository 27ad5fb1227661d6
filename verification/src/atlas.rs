//! One square canvas: its rows, its placed entries and its pixels.

use vstd::prelude::*;
use image::DynamicImage;
use crate::entry::covers;
use crate::entry::overlaps;
use crate::entry::Entry;
use crate::entry::Placement;
use crate::layout::candidate_rows;
use crate::layout::lemma_candidate_rows;
use crate::layout::Layout;
use crate::pixels::blit;
use crate::pixels::get_pixel;
use crate::pixels::image_height;
use crate::pixels::image_is_rgba8;
use crate::pixels::image_pixels;
use crate::pixels::image_width;
use crate::pixels::is_blit_of;
use crate::pixels::new_rgba8;
use crate::pixels::pixel_at;
use crate::pixels::surface_fits_memory;
use crate::row::Row;

verus! {

/// A square canvas of side `size`. Rows stack from the top; entries fill each
/// row from the left.
pub struct Atlas {
    pub size: u32,
    pub border: u32,
    pub entries: Vec<Entry>,
    pub image: DynamicImage,
    pub rows: Vec<Row>,
    pub used_height: u32,
    /// For each entry, the row it stands in.
    pub row_of: Ghost<Seq<int>>,
    /// For each entry, the image that was copied to its place.
    pub sources: Ghost<Seq<Option<DynamicImage>>>,
}

impl Atlas {
    /// The placed entries' names and rectangles, in placement order.
    pub open spec fn placements(&self) -> Seq<Placement> {
        self.entries@.map_values(|e: Entry| e@)
    }

    /// The canvas without its pixels: side, used height, rows and placements.
    pub open spec fn layout(&self) -> Layout {
        Layout {
            size: self.size,
            used_height: self.used_height,
            rows: self.rows@,
            placements: self.placements(),
            sources: self.sources@,
        }
    }

    /// Whether some placed entry covers the point `(x, y)`.
    pub open spec fn covered(&self, x: int, y: int) -> bool {
        exists|k: int| 0 <= k < self.entries@.len() && covers(#[trigger] self.entries@[k]@, x, y)
    }

    /// The pixels are what was placed: under each entry those of its source
    /// image, zero where no entry stands.
    #[verifier::opaque]
    pub open spec fn painted_wf(&self) -> bool {
        &&& self.sources@.len() == self.entries@.len()
        &&& forall|k: int|
            0 <= k < self.entries@.len() ==> {
                let e = #[trigger] self.entries@[k];
                &&& self.sources@[k] is Some
                &&& image_width(self.sources@[k]->0) == e.width
                &&& image_height(self.sources@[k]->0) == e.height
            }
        &&& forall|k: int, x: int, y: int|
            0 <= k < self.entries@.len() && covers(#[trigger] self.entries@[k]@, x, y)
                ==> #[trigger] pixel_at(self.image, x, y) == pixel_at(
                self.sources@[k]->0,
                x - self.entries@[k].x,
                y - self.entries@[k].y,
            )
        &&& forall|x: int, y: int|
            0 <= x < self.size && 0 <= y < self.size && !self.covered(x, y)
                ==> #[trigger] pixel_at(self.image, x, y) == (0u8, 0u8, 0u8, 0u8)
    }

    /// The rows tile the top `used_height` lines of the canvas, in order.
    #[verifier::opaque]
    pub open spec fn rows_wf(&self) -> bool {
        &&& self.used_height <= self.size
        &&& self.rows@.len() == 0 ==> self.used_height == 0
        &&& self.rows@.len() > 0 ==> self.rows@[0].y == 0 && self.rows@.last().y
            + self.rows@.last().height == self.used_height
        &&& forall|i: int|
            0 < i < self.rows@.len() ==> (#[trigger] self.rows@[i]).y == self.rows@[i - 1].y
                + self.rows@[i - 1].height
        &&& forall|i: int|
            0 <= i < self.rows@.len() ==> {
                let r = #[trigger] self.rows@[i];
                r.width == self.size && r.end_x <= r.width && r.y + r.height <= self.used_height
            }
        &&& forall|i: int, j: int|
            0 <= i < j < self.rows@.len() ==> (#[trigger] self.rows@[i]).y + self.rows@[i].height
                <= (#[trigger] self.rows@[j]).y
    }

    /// Every entry stands in one row, inside its used part, and the entries of
    /// one row follow each other from left to right.
    #[verifier::opaque]
    pub open spec fn entries_wf(&self) -> bool {
        &&& self.row_of@.len() == self.entries@.len()
        &&& forall|k: int|
            0 <= k < self.entries@.len() ==> {
                let e = #[trigger] self.entries@[k];
                let r = self.row_of@[k];
                &&& e.image is None
                &&& 0 <= r < self.rows@.len()
                &&& e.y == self.rows@[r].y
                &&& e.height <= self.rows@[r].height
                &&& e.x + e.width <= self.rows@[r].end_x
            }
        &&& forall|k: int, l: int|
            0 <= k < l < self.entries@.len() && self.row_of@[k] == self.row_of@[l] ==> (
            #[trigger] self.entries@[k]).x + self.entries@[k].width <= (
            #[trigger] self.entries@[l]).x
    }

    /// The canvas invariant.
    pub open spec fn wf(&self) -> bool {
        &&& self.rows_wf()
        &&& self.entries_wf()
        &&& self.painted_wf()
        &&& image_width(self.image) == self.size
        &&& image_height(self.image) == self.size
        &&& image_is_rgba8(self.image)
    }

    /// Whether the canvas is as `new` leaves it.
    pub open spec fn is_new(&self, size: u32, border: u32) -> bool {
        &&& self.wf()
        &&& self.size == size
        &&& self.border == border
        &&& self.entries@.len() == 0
        &&& self.sources@.len() == 0
        &&& self.rows@.len() == 0
        &&& self.used_height == 0
        &&& forall|x: int, y: int|
            0 <= x < size && 0 <= y < size ==> #[trigger] pixel_at(self.image, x, y) == (
                0u8,
                0u8,
                0u8,
                0u8,
            )
    }

    /// Whether `add_entry` places a `w` by `h` rectangle: it is no larger than
    /// the canvas, and either a candidate row exists or a new row of height
    /// `h` still fits below the others.
    pub open spec fn accepts(&self, w: u32, h: u32) -> bool {
        self.layout().accepts(w, h)
    }

    /// Whether `self` is `before` with `e` placed at the end of row `r`.
    pub open spec fn placed_in_row(&self, before: Atlas, e: Entry, r: int) -> bool {
        let row = before.rows@[r];
        &&& self.size == before.size
        &&& self.border == before.border
        &&& self.used_height == before.used_height
        &&& self.rows@ == before.rows@.update(
            r,
            Row { end_x: (row.end_x + e.width) as u32, ..row },
        )
        &&& self.placements() == before.placements().push(
            Placement {
                filename: e.filename@,
                x: row.end_x as int,
                y: row.y as int,
                width: e.width as int,
                height: e.height as int,
            },
        )
        &&& self.sources@ == before.sources@.push(e.image)
        &&& e.image is Some
        &&& is_blit_of(self.image, before.image, e.image->0, row.end_x as int, row.y as int)
    }

    /// Whether `self` is what `add_entry` makes of `before` when it accepts
    /// `e`: the layout gains `e` in the first candidate row, or in a new row
    /// where there is no candidate, and the pixels of `e` are copied there.
    pub open spec fn with_entry(&self, before: Atlas, e: Entry) -> bool {
        let at = before.layout().position_for(e.width, e.height);
        &&& self.layout() == before.layout().with_entry(e.item())
        &&& self.border == before.border
        &&& e.image is Some
        &&& is_blit_of(self.image, before.image, e.image->0, at.0, at.1)
    }

    /// An empty canvas of side `size`: no rows, no entries, every pixel zero.
    pub fn new(size: u32, border: u32) -> (a: Atlas)
        requires
            surface_fits_memory(size, size),
        ensures
            a.is_new(size, border),
    {
        let image = new_rgba8(size, size);
        proof {
            reveal(Atlas::rows_wf);
            reveal(Atlas::entries_wf);
            reveal(Atlas::painted_wf);
            assert forall|x: int, y: int| 0 <= x < size && 0 <= y < size implies #[trigger] pixel_at(
                image,
                x,
                y,
            ) == (0u8, 0u8, 0u8, 0u8) by {
                assert(image_pixels(image)[(x, y)] == (0u8, 0u8, 0u8, 0u8));
            }
        }
        Atlas {
            size,
            border,
            entries: Vec::new(),
            image,
            rows: Vec::new(),
            used_height: 0,
            row_of: Ghost(Seq::empty()),
            sources: Ghost(Seq::empty()),
        }
    }

    /// The pixel at `(x, y)` as red, green, blue, alpha.
    pub fn pixel(&self, x: u32, y: u32) -> (p: (u8, u8, u8, u8))
        requires
            self.wf(),
            x < self.size,
            y < self.size,
        ensures
            p == pixel_at(self.image, x as int, y as int),
    {
        get_pixel(&self.image, x, y)
    }

    /// Opens a row of the given height below the others, if there is room.
    pub fn add_row(&mut self, height: u32) -> (r: Option<usize>)
        requires
            old(self).wf(),
        ensures
            final(self).wf(),
            r is Some <==> height <= old(self).size - old(self).used_height,
            old(self).used_height <= final(self).used_height <= final(self).size,
            final(self).size == old(self).size,
            final(self).border == old(self).border,
            final(self).entries == old(self).entries,
            final(self).image == old(self).image,
            final(self).sources == old(self).sources,
            match r {
                Some(i) => {
                    &&& i == old(self).rows@.len()
                    &&& final(self).used_height == old(self).used_height + height
                    &&& final(self).rows@ == old(self).rows@.push(
                        Row {
                            y: old(self).used_height,
                            width: old(self).size,
                            height,
                            end_x: 0,
                        },
                    )
                },
                None => *final(self) == *old(self),
            },
    {
        proof {
            reveal(Atlas::rows_wf);
            reveal(Atlas::entries_wf);
            reveal(Atlas::painted_wf);
        }
        if height <= self.size - self.used_height {
            let row = Row::new(self.used_height, self.size, height);
            self.used_height = self.used_height + height;
            let row_index = self.rows.len();
            self.rows.push(row);
            Some(row_index)
        } else {
            None
        }
    }

    /// Lists the candidate rows for a `width` by `height` rectangle, in
    /// creation order.
    pub fn find_candidates(&self, width: u32, height: u32) -> (c: Vec<usize>)
        ensures
            c@ == candidate_rows(self.rows@, width, height),
    {
        let mut candidates: Vec<usize> = Vec::new();
        let n = self.rows.len();
        let mut ri: usize = 0;
        while ri < n
            invariant
                n == self.rows@.len(),
                ri <= n,
                candidates@ == candidate_rows(self.rows@.take(ri as int), width, height),
            decreases n - ri,
        {
            let r = &self.rows[ri];
            proof {
                assert(self.rows@.take(ri + 1).drop_last() =~= self.rows@.take(ri as int));
                assert(self.rows@.take(ri + 1).last() == self.rows@[ri as int]);
            }
            if r.would_fit(width, height) {
                if (r.height as u64) < 2 * (height as u64) {
                    candidates.push(ri);
                }
            }
            ri = ri + 1;
        }
        proof {
            assert(self.rows@.take(n as int) =~= self.rows@);
        }
        candidates
    }

    /// Picks the row to use among the candidates: the first.
    pub fn select_best(candidates: &Vec<usize>) -> (best: usize)
        requires
            candidates@.len() > 0,
        ensures
            best == candidates@[0],
    {
        candidates[0]
    }

    /// Places `entry` at the end of the row `row_index`, if there is such a
    /// row and the entry fits in it.
    pub fn add_entry_to_row_with_index(&mut self, entry: &Entry, row_index: usize) -> (b: bool)
        requires
            old(self).wf(),
            entry.has_image(),
        ensures
            final(self).wf(),
            b == (row_index < old(self).rows@.len() && old(self).rows@[row_index as int].fits(
                entry.width,
                entry.height,
            )),
            b ==> final(self).placed_in_row(*old(self), *entry, row_index as int),
            !b ==> *final(self) == *old(self),
    {
        proof {
            reveal(Atlas::rows_wf);
            reveal(Atlas::entries_wf);
        }
        if row_index >= self.rows.len() {
            return false;
        }
        let mut row = self.rows[row_index];
        if !row.would_fit(entry.width, entry.height) {
            return false;
        }
        let y = row.y;
        let x = row.reserve(entry.width);
        match &entry.image {
            Some(source) => {
                blit(&mut self.image, source, x, y);
            },
            None => {},
        }
        self.rows.set(row_index, row);
        let mut e = Entry::new(entry.filename.as_str(), entry.width, entry.height);
        e.set_position(x, y);
        self.entries.push(e);
        proof {
            self.row_of = Ghost(self.row_of@.push(row_index as int));
            self.sources = Ghost(self.sources@.push(entry.image));
            assert(self.placements() =~= old(self).placements().push(e@));
            lemma_painted_after(*old(self), *self, *entry, row_index as int);
        }
        true
    }

    /// Places `entry` on the canvas: in the first candidate row, else in a new
    /// row; refuses it where it is larger than the canvas or no room is left.
    pub fn add_entry(&mut self, entry: &Entry) -> (b: bool)
        requires
            old(self).wf(),
            entry.has_image(),
        ensures
            final(self).wf(),
            b == old(self).accepts(entry.width, entry.height),
            b ==> final(self).with_entry(*old(self), *entry),
            !b ==> *final(self) == *old(self),
            old(self).used_height <= final(self).used_height <= final(self).size,
    {
        proof {
            self.lemma_used_height_bounded();
        }
        if self.size < entry.width || self.size < entry.height {
            return false;
        }
        let candidates = self.find_candidates(entry.width, entry.height);
        proof {
            assert(self.rows.len() == self.rows@.len());
            lemma_candidate_rows(self.rows@, entry.width, entry.height);
        }
        if candidates.len() > 0 {
            let best = Atlas::select_best(&candidates);
            self.add_entry_to_row_with_index(entry, best)
        } else {
            match self.add_row(entry.height) {
                None => false,
                Some(row_index) => {
                    let ghost mid = *self;
                    let b = self.add_entry_to_row_with_index(entry, row_index);
                    proof {
                        assert(self.rows@ =~= old(self).rows@.push(
                            Row {
                                y: old(self).used_height,
                                width: old(self).size,
                                height: entry.height,
                                end_x: entry.width,
                            },
                        ));
                        assert(mid.placements() =~= old(self).placements());
                        assert(self.layout() == old(self).layout().with_entry(entry.item()));
                    }
                    b
                },
            }
        }
    }

    /// Under a placed entry the canvas shows the entry's source image.
    pub proof fn lemma_pixels_of_entry(&self, k: int, x: int, y: int)
        requires
            self.wf(),
            0 <= k < self.entries@.len(),
            covers(self.entries@[k]@, x, y),
        ensures
            self.sources@.len() == self.entries@.len(),
            self.sources@[k] is Some,
            image_width(self.sources@[k]->0) == self.entries@[k].width,
            image_height(self.sources@[k]->0) == self.entries@[k].height,
            pixel_at(self.image, x, y) == pixel_at(
                self.sources@[k]->0,
                x - self.entries@[k].x,
                y - self.entries@[k].y,
            ),
    {
        reveal(Atlas::painted_wf);
    }

    /// Where no entry stands the canvas is zero.
    pub proof fn lemma_pixels_elsewhere(&self, x: int, y: int)
        requires
            self.wf(),
            0 <= x < self.size,
            0 <= y < self.size,
            !self.covered(x, y),
        ensures
            pixel_at(self.image, x, y) == (0u8, 0u8, 0u8, 0u8),
    {
        reveal(Atlas::painted_wf);
    }

    /// The rows are bands one below the other, in creation order: the first
    /// starts at the top, each starts where the one before ends, and the last
    /// ends at `used_height`. Each is as wide as the canvas.
    pub proof fn lemma_rows_stack(&self, i: int)
        requires
            self.wf(),
            0 <= i < self.rows@.len(),
        ensures
            self.rows@[i].width == self.size,
            self.rows@[i].end_x <= self.size,
            i == 0 ==> self.rows@[i].y == 0,
            i > 0 ==> self.rows@[i].y == self.rows@[i - 1].y + self.rows@[i - 1].height,
            i == self.rows@.len() - 1 ==> self.rows@[i].y + self.rows@[i].height
                == self.used_height,
            self.rows@[i].y + self.rows@[i].height <= self.used_height,
    {
        reveal(Atlas::rows_wf);
    }

    /// Every placed entry stands in one row: it starts at the row's top, is
    /// no higher than the row, and ends before the row's cursor.
    pub proof fn lemma_entry_stands_in_row(&self, k: int)
        requires
            self.wf(),
            0 <= k < self.entries@.len(),
        ensures
            0 <= self.row_of@[k] < self.rows@.len(),
            self.entries@[k].y == self.rows@[self.row_of@[k]].y,
            self.entries@[k].height <= self.rows@[self.row_of@[k]].height,
            self.entries@[k].x + self.entries@[k].width <= self.rows@[self.row_of@[k]].end_x,
            self.entries@[k].image is None,
    {
        reveal(Atlas::entries_wf);
    }

    /// The rows of a canvas never take more than its height.
    pub proof fn lemma_used_height_bounded(&self)
        requires
            self.wf(),
        ensures
            self.used_height <= self.size,
    {
        reveal(Atlas::rows_wf);
    }

    /// The rectangle of every placed entry lies inside the canvas.
    pub proof fn lemma_entries_inside(&self, k: int)
        requires
            self.wf(),
            0 <= k < self.entries@.len(),
        ensures
            0 <= self.entries@[k].x,
            0 <= self.entries@[k].y,
            self.entries@[k].x + self.entries@[k].width <= self.size,
            self.entries@[k].y + self.entries@[k].height <= self.size,
    {
        reveal(Atlas::rows_wf);
        reveal(Atlas::entries_wf);
        let r = self.row_of@[k];
        assert(self.rows@[r].width == self.size);
    }

    /// No two placed entries of a canvas overlap.
    pub proof fn lemma_entries_disjoint(&self, k: int, l: int)
        requires
            self.wf(),
            0 <= k < self.entries@.len(),
            0 <= l < self.entries@.len(),
            k != l,
        ensures
            !overlaps(self.entries@[k]@, self.entries@[l]@),
    {
        reveal(Atlas::rows_wf);
        reveal(Atlas::entries_wf);
        let rk = self.row_of@[k];
        let rl = self.row_of@[l];
        let ek = self.entries@[k];
        let el = self.entries@[l];
        if rk == rl {
            if k < l {
                assert(ek.x + ek.width <= el.x);
            } else {
                assert(el.x + el.width <= ek.x);
            }
        } else if rk < rl {
            assert(self.rows@[rk].y + self.rows@[rk].height <= self.rows@[rl].y);
        } else {
            assert(self.rows@[rl].y + self.rows@[rl].height <= self.rows@[rk].y);
        }
    }
}

/// Copying an entry's image to the end of a row it fits in keeps the pixels
/// in step with the entries.
proof fn lemma_painted_after(before: Atlas, after: Atlas, e: Entry, r: int)
    requires
        before.wf(),
        e.has_image(),
        0 <= r < before.rows@.len(),
        before.rows@[r].fits(e.width, e.height),
        after.size == before.size,
        after.entries@.len() == before.entries@.len() + 1,
        forall|k: int|
            0 <= k < before.entries@.len() ==> after.entries@[k] == before.entries@[k],
        after.entries@.last().x == before.rows@[r].end_x,
        after.entries@.last().y == before.rows@[r].y,
        after.entries@.last().width == e.width,
        after.entries@.last().height == e.height,
        after.sources@ == before.sources@.push(e.image),
        is_blit_of(
            after.image,
            before.image,
            e.image->0,
            before.rows@[r].end_x as int,
            before.rows@[r].y as int,
        ),
    ensures
        after.painted_wf(),
{
    reveal(Atlas::rows_wf);
    reveal(Atlas::entries_wf);
    reveal(Atlas::painted_wf);
    let n = before.entries@.len() as int;
    let row = before.rows@[r];
    let x0 = row.end_x as int;
    let y0 = row.y as int;
    let fresh = after.entries@[n];
    assert forall|k: int, x: int, y: int|
        0 <= k < after.entries@.len() && covers(#[trigger] after.entries@[k]@, x, y) implies #[trigger] pixel_at(
        after.image,
        x,
        y,
    ) == pixel_at(after.sources@[k]->0, x - after.entries@[k].x, y - after.entries@[k].y) by {
        if k < n {
            let old_e = before.entries@[k];
            let rk = before.row_of@[k];
            assert(covers(old_e@, x, y));
            assert(before.rows@[rk].width == before.size);
            if rk == r {
                assert(x < x0);
            } else if rk < r {
                assert(before.rows@[rk].y + before.rows@[rk].height <= before.rows@[r].y);
                assert(y < y0);
            } else {
                assert(before.rows@[r].y + before.rows@[r].height <= before.rows@[rk].y);
                assert(y >= y0 + e.height);
            }
            assert(pixel_at(after.image, x, y) == pixel_at(before.image, x, y));
        } else {
            assert(0 <= x < before.size && 0 <= y < before.size);
        }
    }
    assert forall|x: int, y: int|
        0 <= x < after.size && 0 <= y < after.size && !after.covered(x, y) implies #[trigger] pixel_at(
        after.image,
        x,
        y,
    ) == (0u8, 0u8, 0u8, 0u8) by {
        if covers(fresh@, x, y) {
            assert(after.covered(x, y));
        }
        if before.covered(x, y) {
            let k = choose|k: int|
                0 <= k < before.entries@.len() && covers(#[trigger] before.entries@[k]@, x, y);
            assert(covers(after.entries@[k]@, x, y));
            assert(after.covered(x, y));
        }
        assert(pixel_at(after.image, x, y) == pixel_at(before.image, x, y));
    }
}

} // verus!
