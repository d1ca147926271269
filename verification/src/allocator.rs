//! Packing of rectangular cells into a bounded atlas.
//!
//! The packing itself is done by `etagere`'s shelf allocator; this module
//! states what the rest of the library relies on and keeps the invariant that
//! allocated cells lie inside the atlas and never overlap.

use vstd::prelude::*;
use etagere::AllocId;
use etagere::AtlasAllocator;
use crate::geometry::CellRect;

verus! {

/// Largest atlas side the allocator is built with.
pub const MAX_ATLAS_DIMS: i32 = 32768;

/// Largest number of cells held at once. The shelf allocator indexes its
/// bookkeeping with 16 bits; staying below this count keeps every index in
/// range.
pub const MAX_CELLS: u32 = 16000;

#[verifier::external_type_specification]
#[verifier::external_body]
pub struct ExAtlasAllocator(AtlasAllocator);

/// The cells that are currently allocated in `allocator`, by identifier.
pub uninterp spec fn atlas_cells(allocator: &AtlasAllocator) -> Map<u32, CellRect>;

/// The width and height that `allocator` was made with.
pub uninterp spec fn atlas_size(allocator: &AtlasAllocator) -> (i32, i32);

/// Whether `allocator`, as it stands, finds a free region for a cell of
/// `width` by `height`: what its next `allocate` answers for that request.
pub uninterp spec fn atlas_has_room(allocator: &AtlasAllocator, width: i32, height: i32) -> bool;

/// An allocated cell: its identifier and the rectangle it denotes.
#[derive(Clone, Copy, Debug, PartialEq, Eq, Structural)]
pub struct Allocation {
    pub id: u32,
    pub rectangle: CellRect,
}

/// `AtlasAllocator::new`: an allocator over `width` by `height` pixels with
/// nothing allocated. The outside constructor panics on a side that is not
/// positive or exceeds 16 bits, and on an area that exceeds `i32`; sides up
/// to `MAX_ATLAS_DIMS` keep clear of all three.
#[verifier::external_body]
fn atlas_new(width: i32, height: i32) -> (r: AtlasAllocator)
    requires
        0 < width <= MAX_ATLAS_DIMS,
        0 < height <= MAX_ATLAS_DIMS,
    ensures
        atlas_cells(&r) == (Map::<u32, CellRect>::empty()),
        atlas_size(&r) == (width, height),
{
    AtlasAllocator::new(etagere::size2(width, height))
}

/// `AtlasAllocator::allocate`: the call succeeds exactly when the allocator
/// finds room for the request, which depends on the allocator and the
/// request alone. On failure nothing changes; on success a cell with a fresh
/// identifier is added, which lies inside the atlas, is at least as large as
/// asked for and overlaps no cell allocated before. A request that is empty
/// or exceeds the atlas fails; one that fits succeeds while nothing is
/// allocated, since the allocator then consists of one free region. Which
/// free region is taken is left open. The call is made only with fewer than
/// `MAX_CELLS` cells
/// allocated and sides up to `MAX_ATLAS_DIMS`: the allocator keeps its free
/// and used regions in tables with 16-bit indices, and with `n` cells
/// allocated it holds no more than `4 n + 1` regions.
#[verifier::external_body]
fn atlas_allocate(allocator: &mut AtlasAllocator, width: i32, height: i32) -> (r: Option<
    Allocation,
>)
    requires
        0 < atlas_size(old(allocator)).0 <= MAX_ATLAS_DIMS,
        0 < atlas_size(old(allocator)).1 <= MAX_ATLAS_DIMS,
        atlas_cells(old(allocator)).dom().finite(),
        atlas_cells(old(allocator)).dom().len() < MAX_CELLS,
    ensures
        atlas_size(final(allocator)) == atlas_size(old(allocator)),
        r is Some <==> atlas_has_room(old(allocator), width, height),
        r is None ==> atlas_cells(final(allocator)) == atlas_cells(old(allocator)),
        width <= 0 || height <= 0 || width > atlas_size(old(allocator)).0 || height > atlas_size(
            old(allocator),
        ).1 ==> r is None,
        atlas_cells(old(allocator)).dom().len() == 0 && 0 < width <= atlas_size(old(allocator)).0
            && 0 < height <= atlas_size(old(allocator)).1 ==> r is Some,
        r matches Some(cell) ==> {
            &&& !atlas_cells(old(allocator)).contains_key(cell.id)
            &&& atlas_cells(final(allocator)) == atlas_cells(old(allocator)).insert(
                cell.id,
                cell.rectangle,
            )
            &&& cell.rectangle.inside(
                atlas_size(old(allocator)).0 as int,
                atlas_size(old(allocator)).1 as int,
            )
            &&& cell.rectangle.holds(width as int, height as int)
            &&& forall|other: u32| #[trigger]
                atlas_cells(old(allocator)).contains_key(other) ==> !atlas_cells(
                    old(allocator),
                )[other].overlaps(cell.rectangle)
        },
{
    allocator.allocate(etagere::size2(width, height)).map(
        |a| Allocation {
            id: a.id.serialize(),
            rectangle: CellRect {
                min_x: a.rectangle.min.x,
                min_y: a.rectangle.min.y,
                max_x: a.rectangle.max.x,
                max_y: a.rectangle.max.y,
            },
        },
    )
}

/// `AtlasAllocator::get`: the rectangle of an allocated cell. The outside
/// function panics on an identifier that is not allocated.
#[verifier::external_body]
fn atlas_get(allocator: &AtlasAllocator, id: u32) -> (rect: CellRect)
    requires
        atlas_cells(allocator).contains_key(id),
    ensures
        rect == atlas_cells(allocator)[id],
{
    let r = allocator.get(AllocId::deserialize(id));
    CellRect { min_x: r.min.x, min_y: r.min.y, max_x: r.max.x, max_y: r.max.y }
}

/// `AtlasAllocator::deallocate`: the cell leaves the allocator, the others
/// stay as they are. The outside function panics on an identifier that is not
/// allocated.
#[verifier::external_body]
fn atlas_deallocate(allocator: &mut AtlasAllocator, id: u32)
    requires
        atlas_cells(old(allocator)).contains_key(id),
    ensures
        atlas_size(final(allocator)) == atlas_size(old(allocator)),
        atlas_cells(final(allocator)) == atlas_cells(old(allocator)).remove(id),
{
    allocator.deallocate(AllocId::deserialize(id))
}

/// `AtlasAllocator::clone`: a copy with the same size and the same cells
/// under the same identifiers.
#[verifier::external_body]
fn atlas_clone(allocator: &AtlasAllocator) -> (r: AtlasAllocator)
    ensures
        atlas_size(&r) == atlas_size(allocator),
        atlas_cells(&r) == atlas_cells(allocator),
{
    allocator.clone()
}

/// Every cell lies inside `width` by `height` and covers a pixel.
pub open spec fn cells_inside(cells: Map<u32, CellRect>, width: int, height: int) -> bool {
    forall|id: u32| #[trigger]
        cells.contains_key(id) ==> cells[id].is_nonempty() && cells[id].inside(width, height)
}

/// No two cells overlap.
pub open spec fn cells_disjoint(cells: Map<u32, CellRect>) -> bool {
    forall|a: u32, b: u32|
        #![trigger cells.contains_key(a), cells.contains_key(b)]
        cells.contains_key(a) && cells.contains_key(b) && a != b ==> !cells[a].overlaps(cells[b])
}

/// An allocator of non-overlapping cells inside a bounded atlas.
pub struct CellAllocator {
    inner: AtlasAllocator,
    width: i32,
    height: i32,
    count: u32,
}

impl CellAllocator {
    /// The allocated cells, by identifier.
    pub closed spec fn cells(&self) -> Map<u32, CellRect> {
        atlas_cells(&self.inner)
    }

    /// Width of the atlas in pixels.
    pub closed spec fn spec_width(&self) -> int {
        self.width as int
    }

    /// Height of the atlas in pixels.
    pub closed spec fn spec_height(&self) -> int {
        self.height as int
    }

    /// Whether a request for a cell of `width` by `height` succeeds: fewer
    /// than `MAX_CELLS` cells are held and the packing finds a free region.
    pub closed spec fn has_room(&self, width: i32, height: i32) -> bool {
        self.count < MAX_CELLS && atlas_has_room(&self.inner, width, height)
    }

    /// The allocator is consistent: its cells are finitely many, lie inside
    /// the atlas and are pairwise disjoint.
    pub closed spec fn wf(&self) -> bool {
        &&& atlas_size(&self.inner) == (self.width, self.height)
        &&& 0 < self.width <= MAX_ATLAS_DIMS
        &&& 0 < self.height <= MAX_ATLAS_DIMS
        &&& self.cells().dom().finite()
        &&& self.cells().dom().len() == self.count
        &&& self.count <= MAX_CELLS
        &&& cells_inside(self.cells(), self.width as int, self.height as int)
        &&& cells_disjoint(self.cells())
    }

    /// What a consistent allocator guarantees of its cells.
    pub proof fn lemma_wf(&self)
        requires
            self.wf(),
        ensures
            0 < self.spec_width() <= MAX_ATLAS_DIMS,
            0 < self.spec_height() <= MAX_ATLAS_DIMS,
            self.cells().dom().finite(),
            self.cells().dom().len() <= MAX_CELLS,
            cells_inside(self.cells(), self.spec_width(), self.spec_height()),
            cells_disjoint(self.cells()),
    {
    }

    /// An empty allocator over `width` by `height` pixels, or `None` when a
    /// side is not positive or exceeds `MAX_ATLAS_DIMS`.
    pub fn new(width: i32, height: i32) -> (r: Option<CellAllocator>)
        ensures
            r is Some <==> 0 < width <= MAX_ATLAS_DIMS && 0 < height <= MAX_ATLAS_DIMS,
            r matches Some(a) ==> {
                &&& a.wf()
                &&& a.cells() == (Map::<u32, CellRect>::empty())
                &&& a.spec_width() == width
                &&& a.spec_height() == height
            },
    {
        if 0 < width && width <= MAX_ATLAS_DIMS && 0 < height && height <= MAX_ATLAS_DIMS {
            let inner = atlas_new(width, height);
            Some(CellAllocator { inner, width, height, count: 0 })
        } else {
            None
        }
    }

    /// Width of the atlas in pixels.
    pub fn width(&self) -> (w: i32)
        ensures
            w == self.spec_width(),
    {
        self.width
    }

    /// Height of the atlas in pixels.
    pub fn height(&self) -> (h: i32)
        ensures
            h == self.spec_height(),
    {
        self.height
    }

    /// Number of cells that are allocated.
    pub fn len(&self) -> (n: u32)
        requires
            self.wf(),
        ensures
            n == self.cells().dom().len(),
    {
        self.count
    }

    /// Allocates a cell of at least `width` by `height` pixels.
    ///
    /// The call succeeds exactly when the allocator has room for the
    /// request. On failure the allocator is unchanged. A request that is
    /// empty, exceeds the atlas, or comes when `MAX_CELLS` cells are held
    /// fails; a request that fits the atlas succeeds while no cell is held.
    /// On success the new cell has a fresh identifier, lies inside the atlas
    /// and overlaps none of the cells held before.
    pub fn allocate(&mut self, width: i32, height: i32) -> (r: Option<Allocation>)
        requires
            old(self).wf(),
        ensures
            final(self).wf(),
            r is Some <==> old(self).has_room(width, height),
            final(self).spec_width() == old(self).spec_width(),
            final(self).spec_height() == old(self).spec_height(),
            r is None ==> final(self).cells() == old(self).cells(),
            width <= 0 || height <= 0 || width > old(self).spec_width() || height > old(
                self,
            ).spec_height() || old(self).cells().dom().len() >= MAX_CELLS ==> r is None,
            old(self).cells().dom().len() == 0 && 0 < width <= old(self).spec_width() && 0
                < height <= old(self).spec_height() ==> r is Some,
            r matches Some(cell) ==> {
                &&& !old(self).cells().contains_key(cell.id)
                &&& final(self).cells() == old(self).cells().insert(cell.id, cell.rectangle)
                &&& cell.rectangle.is_nonempty()
                &&& cell.rectangle.inside(old(self).spec_width(), old(self).spec_height())
                &&& cell.rectangle.holds(width as int, height as int)
                &&& forall|other: u32| #[trigger]
                    old(self).cells().contains_key(other) ==> !old(self).cells()[other].overlaps(
                        cell.rectangle,
                    )
            },
    {
        if self.count >= MAX_CELLS {
            return None;
        }
        let r = atlas_allocate(&mut self.inner, width, height);
        if let Some(cell) = r {
            self.count = self.count + 1;
            proof {
                let before = old(self).cells();
                let after = self.cells();
                assert(after == before.insert(cell.id, cell.rectangle));
                assert(after.dom() == before.dom().insert(cell.id));
                assert forall|a: u32, b: u32|
                    #![trigger after.contains_key(a), after.contains_key(b)]
                    after.contains_key(a) && after.contains_key(b) && a != b implies !after[a].overlaps(
                    after[b],
                ) by {
                    if a == cell.id {
                        assert(before.contains_key(b));
                    } else if b == cell.id {
                        assert(before.contains_key(a));
                    } else {
                        assert(before.contains_key(a) && before.contains_key(b));
                    }
                }
            }
        }
        r
    }

    /// The rectangle of the allocated cell `id`.
    pub fn get(&self, id: u32) -> (rect: CellRect)
        requires
            self.wf(),
            self.cells().contains_key(id),
        ensures
            rect == self.cells()[id],
    {
        atlas_get(&self.inner, id)
    }

    /// Returns the cell `id` to the free pool. The other cells stay.
    pub fn deallocate(&mut self, id: u32)
        requires
            old(self).wf(),
            old(self).cells().contains_key(id),
        ensures
            final(self).wf(),
            final(self).spec_width() == old(self).spec_width(),
            final(self).spec_height() == old(self).spec_height(),
            final(self).cells() == old(self).cells().remove(id),
    {
        atlas_deallocate(&mut self.inner, id);
        proof {
            let before = old(self).cells();
            assert(self.cells().dom() == before.dom().remove(id));
            assert(before.dom().len() >= 1) by {
                if before.dom().len() == 0 {
                    assert(before.dom() =~= Set::<u32>::empty());
                }
            }
        }
        self.count = self.count - 1;
    }
}

impl Clone for CellAllocator {
    /// A copy that holds the same cells under the same identifiers.
    fn clone(&self) -> (r: CellAllocator)
        ensures
            r.wf() == self.wf(),
            r.cells() == self.cells(),
            r.spec_width() == self.spec_width(),
            r.spec_height() == self.spec_height(),
    {
        CellAllocator {
            inner: atlas_clone(&self.inner),
            width: self.width,
            height: self.height,
            count: self.count,
        }
    }
}

/// No overlap: in a consistent allocator, two different cells never share
/// a pixel.
pub proof fn lemma_no_overlap(allocator: &CellAllocator, a: u32, b: u32, x: int, y: int)
    requires
        allocator.wf(),
        allocator.cells().contains_key(a),
        allocator.cells().contains_key(b),
        a != b,
    ensures
        !allocator.cells()[a].overlaps(allocator.cells()[b]),
        !(allocator.cells()[a].covers(x, y) && allocator.cells()[b].covers(x, y)),
{
    allocator.lemma_wf();
}

} // verus!
