//! The packing rule as mathematics: which rows are candidates, where a
//! rectangle goes on one canvas, and how a batch spreads over canvases.

use vstd::prelude::*;
use image::DynamicImage;
use crate::entry::Placement;
use crate::row::Row;

verus! {

/// The indices, in increasing order, of the rows that are candidates for a
/// `w` by `h` rectangle.
pub open spec fn candidate_rows(rows: Seq<Row>, w: u32, h: u32) -> Seq<usize>
    decreases rows.len(),
{
    if rows.len() == 0 {
        Seq::empty()
    } else if rows.last().is_candidate(w, h) {
        candidate_rows(rows.drop_last(), w, h).push((rows.len() - 1) as usize)
    } else {
        candidate_rows(rows.drop_last(), w, h)
    }
}

/// The candidate list holds exactly the candidate rows, each once, in
/// creation order.
pub proof fn lemma_candidate_rows(rows: Seq<Row>, w: u32, h: u32)
    requires
        rows.len() <= usize::MAX,
    ensures
        forall|k: int|
            0 <= k < candidate_rows(rows, w, h).len() ==> {
                let i = #[trigger] candidate_rows(rows, w, h)[k];
                i < rows.len() && rows[i as int].is_candidate(w, h)
            },
        forall|i: int|
            0 <= i < rows.len() && (#[trigger] rows[i]).is_candidate(w, h) ==> candidate_rows(
                rows,
                w,
                h,
            ).contains(i as usize),
        forall|k: int, l: int|
            0 <= k < l < candidate_rows(rows, w, h).len() ==> candidate_rows(rows, w, h)[k]
                < candidate_rows(rows, w, h)[l],
    decreases rows.len(),
{
    if rows.len() > 0 {
        let head = rows.drop_last();
        let last = (rows.len() - 1) as usize;
        lemma_candidate_rows(head, w, h);
        let c = candidate_rows(rows, w, h);
        let ch = candidate_rows(head, w, h);
        assert forall|i: int| 0 <= i < rows.len() && (#[trigger] rows[i]).is_candidate(w, h) implies c.contains(
            i as usize,
        ) by {
            if i < rows.len() - 1 {
                assert(head[i].is_candidate(w, h));
                assert(ch.contains(i as usize));
                let k = choose|k: int| 0 <= k < ch.len() && ch[k] == i as usize;
                assert(c[k] == i as usize);
            } else {
                assert(c[c.len() - 1] == last);
            }
        }
    }
}

/// A row at least twice as high as the rectangle is never a candidate, even
/// where the rectangle would fit in it.
pub proof fn lemma_tall_row_is_no_candidate(rows: Seq<Row>, w: u32, h: u32, i: int)
    requires
        rows.len() <= usize::MAX,
        0 <= i < rows.len(),
        rows[i].height >= 2 * h,
    ensures
        !candidate_rows(rows, w, h).contains(i as usize),
{
    lemma_candidate_rows(rows, w, h);
}

/// An image to place: its name and size, which the packing rule reads, and
/// the pixels that travel with it.
pub ghost struct Item {
    pub filename: Seq<char>,
    pub width: u32,
    pub height: u32,
    pub image: Option<DynamicImage>,
}

/// What was decided for a canvas: its rows, where each entry stands, and
/// which image was copied there.
pub ghost struct Layout {
    pub size: u32,
    pub used_height: u32,
    pub rows: Seq<Row>,
    pub placements: Seq<Placement>,
    pub sources: Seq<Option<DynamicImage>>,
}

impl Layout {
    /// The layout of an empty canvas of side `size`.
    pub open spec fn empty(size: u32) -> Layout {
        Layout {
            size,
            used_height: 0,
            rows: Seq::empty(),
            placements: Seq::empty(),
            sources: Seq::empty(),
        }
    }

    /// Whether a `w` by `h` rectangle is placed: it is no larger than the
    /// canvas, and either a candidate row exists or a new row of height `h`
    /// still fits below the others.
    pub open spec fn accepts(self, w: u32, h: u32) -> bool {
        &&& w <= self.size
        &&& h <= self.size
        &&& (candidate_rows(self.rows, w, h).len() > 0 || h <= self.size - self.used_height)
    }

    /// The top-left corner that an accepted `w` by `h` rectangle gets: the end
    /// of the first candidate row, or the start of a new row.
    pub open spec fn position_for(self, w: u32, h: u32) -> (int, int) {
        let c = candidate_rows(self.rows, w, h);
        if c.len() > 0 {
            (self.rows[c[0] as int].end_x as int, self.rows[c[0] as int].y as int)
        } else {
            (0, self.used_height as int)
        }
    }

    /// The layout after an accepted item is placed.
    pub open spec fn with_entry(self, item: Item) -> Layout {
        let c = candidate_rows(self.rows, item.width, item.height);
        let at = self.position_for(item.width, item.height);
        let placed = Placement {
            filename: item.filename,
            x: at.0,
            y: at.1,
            width: item.width as int,
            height: item.height as int,
        };
        if c.len() > 0 {
            let r = c[0] as int;
            Layout {
                rows: self.rows.update(
                    r,
                    Row { end_x: (self.rows[r].end_x + item.width) as u32, ..self.rows[r] },
                ),
                placements: self.placements.push(placed),
                sources: self.sources.push(item.image),
                ..self
            }
        } else {
            Layout {
                used_height: (self.used_height + item.height) as u32,
                rows: self.rows.push(
                    Row {
                        y: self.used_height,
                        width: self.size,
                        height: item.height,
                        end_x: item.width,
                    },
                ),
                placements: self.placements.push(placed),
                sources: self.sources.push(item.image),
                ..self
            }
        }
    }
}

/// A rectangle wider or higher than the canvas is refused, whatever the rows.
pub proof fn lemma_oversized_is_refused(canvas: Layout, w: u32, h: u32)
    requires
        w > canvas.size || h > canvas.size,
    ensures
        !canvas.accepts(w, h),
{
}

/// The index of the first canvas that accepts a `w` by `h` rectangle, or the
/// number of canvases where none does.
pub open spec fn first_accepting(canvases: Seq<Layout>, w: u32, h: u32) -> int
    decreases canvases.len(),
{
    if canvases.len() == 0 {
        0
    } else {
        let before = first_accepting(canvases.drop_last(), w, h);
        if before < canvases.len() - 1 {
            before
        } else if canvases.last().accepts(w, h) {
            canvases.len() - 1
        } else {
            canvases.len() as int
        }
    }
}

/// `first_accepting` is the least index of an accepting canvas.
pub proof fn lemma_first_accepting(canvases: Seq<Layout>, w: u32, h: u32)
    ensures
        0 <= first_accepting(canvases, w, h) <= canvases.len(),
        first_accepting(canvases, w, h) < canvases.len() ==> canvases[first_accepting(
            canvases,
            w,
            h,
        )].accepts(w, h),
        forall|j: int|
            0 <= j < first_accepting(canvases, w, h) ==> !(#[trigger] canvases[j]).accepts(w, h),
    decreases canvases.len(),
{
    if canvases.len() > 0 {
        lemma_first_accepting(canvases.drop_last(), w, h);
        let before = first_accepting(canvases.drop_last(), w, h);
        assert forall|j: int| 0 <= j < first_accepting(canvases, w, h) implies !(
        #[trigger] canvases[j]).accepts(w, h) by {
            if j < canvases.len() - 1 {
                assert(canvases.drop_last()[j] == canvases[j]);
            }
        }
        if before < canvases.len() - 1 {
            assert(canvases.drop_last()[before] == canvases[before]);
        }
    }
}

/// The canvases after an item no larger than `size` is placed: in the first
/// canvas that accepts it, else alone on a new canvas of side `size`.
pub open spec fn place(canvases: Seq<Layout>, size: u32, item: Item) -> Seq<Layout> {
    let i = first_accepting(canvases, item.width, item.height);
    if i < canvases.len() {
        canvases.update(i, canvases[i].with_entry(item))
    } else {
        canvases.push(Layout::empty(size).with_entry(item))
    }
}

/// The canvases after a batch is placed in order, starting with none. Every
/// item is no larger than `size`.
pub open spec fn pack(size: u32, items: Seq<Item>) -> Seq<Layout>
    decreases items.len(),
{
    if items.len() == 0 {
        Seq::empty()
    } else {
        place(pack(size, items.drop_last()), size, items.last())
    }
}

/// The number of entries placed on all canvases together.
pub open spec fn total_placed(canvases: Seq<Layout>) -> nat
    decreases canvases.len(),
{
    if canvases.len() == 0 {
        0
    } else {
        total_placed(canvases.drop_last()) + canvases.last().placements.len()
    }
}

/// Replacing one canvas changes the total by the difference of its entries.
pub proof fn lemma_total_placed_update(canvases: Seq<Layout>, i: int, canvas: Layout)
    requires
        0 <= i < canvases.len(),
    ensures
        total_placed(canvases.update(i, canvas)) + canvases[i].placements.len() == total_placed(
            canvases,
        ) + canvas.placements.len(),
    decreases canvases.len(),
{
    let updated = canvases.update(i, canvas);
    if i == canvases.len() - 1 {
        assert(updated.drop_last() =~= canvases.drop_last());
    } else {
        assert(updated.drop_last() =~= canvases.drop_last().update(i, canvas));
        lemma_total_placed_update(canvases.drop_last(), i, canvas);
    }
}

/// Every item of a batch is placed exactly once: the canvases of a packed
/// batch hold as many entries as the batch has items, and none is empty.
pub proof fn lemma_pack_places_each_once(size: u32, items: Seq<Item>)
    ensures
        total_placed(pack(size, items)) == items.len(),
        forall|c: int|
            0 <= c < pack(size, items).len() ==> (#[trigger] pack(size, items)[c]).placements.len()
                > 0,
    decreases items.len(),
{
    if items.len() > 0 {
        let before = pack(size, items.drop_last());
        let item = items.last();
        lemma_pack_places_each_once(size, items.drop_last());
        lemma_first_accepting(before, item.width, item.height);
        let i = first_accepting(before, item.width, item.height);
        if i < before.len() {
            lemma_total_placed_update(before, i, before[i].with_entry(item));
        } else {
            assert(before.push(Layout::empty(size).with_entry(item)).drop_last() =~= before);
        }
    }
}

} // verus!
