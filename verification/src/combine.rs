//! Placing a batch of images over as many canvases as it takes.

use vstd::prelude::*;
use crate::atlas::Atlas;
use crate::entry::overlaps;
use crate::entry::Entry;
use crate::error::OmError;
use crate::layout::first_accepting;
use crate::layout::pack;
use crate::layout::place;
use crate::layout::Item;
use crate::layout::Layout;
use crate::naming::OutputNames;
use crate::pixels::surface_fits_memory;

verus! {

/// The canvases of one run, in creation order. All have the same side and
/// border.
pub struct AtlasSet {
    pub size: u32,
    pub border: u32,
    pub atlases: Vec<Atlas>,
}

/// What the packing rule reads of each entry of a batch.
pub open spec fn items_of(entries: Seq<Entry>) -> Seq<Item> {
    entries.map_values(|e: Entry| e.item())
}

/// Whether every entry of a batch is no larger than `size` in either
/// direction.
pub open spec fn all_within(entries: Seq<Entry>, size: u32) -> bool {
    forall|k: int|
        0 <= k < entries.len() ==> (#[trigger] entries[k]).width <= size && entries[k].height
            <= size
}

impl AtlasSet {
    /// The layouts of the canvases, in creation order.
    pub open spec fn layouts(&self) -> Seq<Layout> {
        self.atlases@.map_values(|a: Atlas| a.layout())
    }

    /// The set invariant: every canvas is well formed and has the set's side
    /// and border.
    pub open spec fn wf(&self) -> bool {
        forall|i: int|
            0 <= i < self.atlases@.len() ==> {
                let a = #[trigger] self.atlases@[i];
                a.wf() && a.size == self.size && a.border == self.border
            }
    }

    /// Whether each entry of each canvas lies inside the canvas.
    pub open spec fn entries_inside(&self) -> bool {
        forall|c: int, k: int|
            0 <= c < self.atlases@.len() && 0 <= k < self.atlases@[c].entries@.len() ==> {
                let e = #[trigger] self.atlases@[c].entries@[k];
                e.x + e.width <= self.size && e.y + e.height <= self.size
            }
    }

    /// Whether no two entries of one canvas overlap.
    pub open spec fn entries_apart(&self) -> bool {
        forall|c: int, k: int, l: int|
            0 <= c < self.atlases@.len() && 0 <= k < self.atlases@[c].entries@.len() && 0 <= l
                < self.atlases@[c].entries@.len() && k != l ==> !overlaps(
                (#[trigger] self.atlases@[c].entries@[k])@,
                (#[trigger] self.atlases@[c].entries@[l])@,
            )
    }

    /// In a well-formed set every entry lies inside its canvas and no two
    /// entries of one canvas overlap.
    pub proof fn lemma_entries_inside_and_apart_everywhere(&self)
        requires
            self.wf(),
        ensures
            self.entries_inside(),
            self.entries_apart(),
    {
        assert forall|c: int, k: int|
            0 <= c < self.atlases@.len() && 0 <= k < self.atlases@[c].entries@.len() implies {
            let e = #[trigger] self.atlases@[c].entries@[k];
            e.x + e.width <= self.size && e.y + e.height <= self.size
        } by {
            self.atlases@[c].lemma_entries_inside(k);
        }
        assert forall|c: int, k: int, l: int|
            0 <= c < self.atlases@.len() && 0 <= k < self.atlases@[c].entries@.len() && 0 <= l
                < self.atlases@[c].entries@.len() && k != l implies !overlaps(
            (#[trigger] self.atlases@[c].entries@[k])@,
            (#[trigger] self.atlases@[c].entries@[l])@,
        ) by {
            self.atlases@[c].lemma_entries_disjoint(k, l);
        }
    }

    /// On every canvas of a set, each entry lies inside the canvas and no two
    /// entries overlap.
    pub proof fn lemma_entries_inside_and_apart(&self, c: int, k: int, l: int)
        requires
            self.wf(),
            0 <= c < self.atlases@.len(),
            0 <= k < self.atlases@[c].entries@.len(),
            0 <= l < self.atlases@[c].entries@.len(),
            k != l,
        ensures
            self.atlases@[c].entries@[k].x + self.atlases@[c].entries@[k].width <= self.size,
            self.atlases@[c].entries@[k].y + self.atlases@[c].entries@[k].height <= self.size,
            !overlaps(self.atlases@[c].entries@[k]@, self.atlases@[c].entries@[l]@),
    {
        self.atlases@[c].lemma_entries_inside(k);
        self.atlases@[c].lemma_entries_disjoint(k, l);
    }

    /// A set without canvases.
    pub fn new(size: u32, border: u32) -> (set: AtlasSet)
        ensures
            set.wf(),
            set.size == size,
            set.border == border,
            set.atlases@.len() == 0,
    {
        AtlasSet { size, border, atlases: Vec::new() }
    }

    /// Places `entry` in the first canvas that accepts it, or alone on a new
    /// canvas, and returns that canvas's index. An entry larger than the
    /// canvas side is refused and nothing changes. The entry is taken whole:
    /// its pixels are released as soon as they are copied. A canvas of the
    /// set's side must fit in memory.
    pub fn place(&mut self, entry: Entry) -> (r: Result<usize, OmError>)
        requires
            old(self).wf(),
            entry.has_image(),
            surface_fits_memory(old(self).size, old(self).size),
        ensures
            final(self).wf(),
            final(self).size == old(self).size,
            final(self).border == old(self).border,
            r is Ok <==> entry.width <= old(self).size && entry.height <= old(self).size,
            match r {
                Ok(i) => {
                    &&& i == first_accepting(old(self).layouts(), entry.width, entry.height)
                    &&& final(self).layouts() == place(
                        old(self).layouts(),
                        old(self).size,
                        entry.item(),
                    )
                    &&& final(self).atlases@.len() == if i < old(self).atlases@.len() {
                        old(self).atlases@.len()
                    } else {
                        old(self).atlases@.len() + 1
                    }
                    &&& forall|j: int|
                        0 <= j < old(self).atlases@.len() && j != i ==> final(self).atlases@[j]
                            == old(self).atlases@[j]
                },
                Err(e) => e == OmError::Capacity && final(self).atlases@ == old(self).atlases@,
            },
    {
        let n = self.atlases.len();
        let mut i: usize = 0;
        while i < n
            invariant
                self.size == old(self).size,
                self.border == old(self).border,
                self.atlases@ == old(self).atlases@,
                self.wf(),
                n == self.atlases@.len(),
                i <= n,
                entry.has_image(),
                first_accepting(self.layouts().take(i as int), entry.width, entry.height) == i,
            decreases n - i,
        {
            let ghost before = self.layouts();
            proof {
                assert(before.take(i + 1).drop_last() =~= before.take(i as int));
                assert(before.take(i + 1).last() == self.atlases@[i as int].layout());
            }
            let fits = self.atlases[i].add_entry(&entry);
            if fits {
                proof {
                    lemma_found(before, i as int, entry.width, entry.height);
                    assert(self.layouts() =~= place(before, self.size, entry.item()));
                }
                return Ok(i);
            }
            assert(self.atlases@ =~= old(self).atlases@);
            i = i + 1;
        }
        proof {
            assert(self.layouts().take(n as int) =~= self.layouts());
        }
        if self.size < entry.width || self.size < entry.height {
            return Err(OmError::Capacity);
        }
        let mut fresh = Atlas::new(self.size, self.border);
        let ghost empty = fresh;
        let fits = fresh.add_entry(&entry);
        assert(fits);
        assert(empty.layout() == Layout::empty(self.size)) by {
            assert(empty.placements() =~= Seq::empty());
            assert(empty.rows@ =~= Seq::empty());
            assert(empty.sources@ =~= Seq::empty());
        }
        self.atlases.push(fresh);
        proof {
            assert(self.layouts() =~= place(old(self).layouts(), self.size, entry.item()));
        }
        Ok(n)
    }
}

/// An accepting canvas at `i` with none before it among the first `i + 1` is
/// the first accepting canvas of the whole list.
proof fn lemma_found(canvases: Seq<Layout>, i: int, w: u32, h: u32)
    requires
        0 <= i < canvases.len(),
        first_accepting(canvases.take(i), w, h) == i,
        canvases[i].accepts(w, h),
    ensures
        first_accepting(canvases, w, h) == i,
    decreases canvases.len(),
{
    if canvases.len() == i + 1 {
        assert(canvases.drop_last() =~= canvases.take(i));
    } else {
        assert(canvases.drop_last().take(i) =~= canvases.take(i));
        lemma_found(canvases.drop_last(), i, w, h);
    }
}

impl Atlas {
    /// The greeting of this library.
    pub fn hello() -> (s: &'static str)
        ensures
            s@ == "Atlas::hello()"@,
    {
        "Atlas::hello()"
    }

    /// Places the images of `input`, in order, on canvases of side `size`, and
    /// names the output files of each canvas after `output`. Fails on the
    /// first image that is larger than a canvas, and then hands back no canvas
    /// at all. The batch is taken whole: each image's pixels are released as
    /// soon as they are copied. Where there is an image to place, a canvas of
    /// side `size` must fit in memory.
    pub fn combine(output: &str, size: u32, border: u32, input: Vec<Entry>) -> (r: Result<
        (AtlasSet, Vec<OutputNames>),
        OmError,
    >)
        requires
            input@.len() > 0 ==> surface_fits_memory(size, size),
            forall|k: int| 0 <= k < input@.len() ==> (#[trigger] input@[k]).has_image(),
        ensures
            r is Ok <==> all_within(input@, size),
            match r {
                Ok((set, names)) => {
                    &&& set.wf()
                    &&& set.size == size
                    &&& set.border == border
                    &&& set.layouts() == pack(size, items_of(input@))
                    &&& set.entries_inside()
                    &&& set.entries_apart()
                    &&& names@.len() == set.atlases@.len()
                    &&& forall|n: int|
                        0 <= n < names@.len() ==> (#[trigger] names@[n]).is_for(output@, n as nat)
                },
                Err(e) => e == OmError::Capacity,
            },
    {
        let mut set = AtlasSet::new(size, border);
        proof {
            assert(input.len() == input@.len());
        }
        let mut rest = input;
        let ghost items = items_of(input@);
        let mut k: usize = 0;
        assert(set.layouts() =~= pack(size, items.take(0)));
        assert(rest@ =~= input@.skip(0));
        while rest.len() > 0
            invariant
                input@.len() > 0 ==> surface_fits_memory(size, size),
                input@.len() <= usize::MAX,
                k + rest@.len() == input@.len(),
                rest@ == input@.skip(k as int),
                items == items_of(input@),
                set.wf(),
                set.size == size,
                set.border == border,
                set.atlases@.len() <= k,
                forall|j: int| 0 <= j < input@.len() ==> (#[trigger] input@[j]).has_image(),
                forall|j: int|
                    0 <= j < k ==> (#[trigger] input@[j]).width <= size && input@[j].height
                        <= size,
                set.layouts() == pack(size, items.take(k as int)),
            decreases rest@.len(),
        {
            let entry = rest.remove(0);
            proof {
                assert(entry == input@[k as int]);
                assert(rest@ =~= input@.skip(k + 1));
                assert(items.take(k + 1).drop_last() =~= items.take(k as int));
                assert(items.take(k + 1).last() == entry.item());
            }
            match set.place(entry) {
                Ok(_) => {},
                Err(e) => {
                    return Err(e);
                },
            }
            k = k + 1;
        }
        proof {
            assert(items.take(k as int) =~= items);
        }
        proof {
            set.lemma_entries_inside_and_apart_everywhere();
        }
        let mut names: Vec<OutputNames> = Vec::new();
        let canvases = set.atlases.len();
        let mut n: usize = 0;
        while n < canvases
            invariant
                canvases == set.atlases@.len(),
                n <= canvases,
                names@.len() == n,
                forall|m: int| 0 <= m < n ==> (#[trigger] names@[m]).is_for(output@, m as nat),
            decreases canvases - n,
        {
            names.push(OutputNames::new(output, n as u64));
            n = n + 1;
        }
        Ok((set, names))
    }
}

} // verus!
