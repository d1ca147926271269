//! The glyph atlas: one shared bitmap of glyph images, the metrics of each
//! cached character, and a dirty flag for synchronization.

use vstd::prelude::*;
use std::collections::HashMap;
use ttf_parser::Face;
use crate::allocator::Allocation;
use crate::allocator::CellAllocator;
use crate::allocator::MAX_ATLAS_DIMS;
use crate::allocator::MAX_CELLS;
use crate::bitmap::lemma_index_in_grid;
use crate::bitmap::GlyphBitmap;
use crate::bitmap::Rgb;
use crate::bitmap::Rgba;
use crate::bitmap::PIXEL_BYTES;
use crate::font::lookup_glyph;
use crate::font::spec_lookup_glyph;
use crate::font::FontGlyph;
use crate::font::SaikoSdfFontError;
use crate::geometry::CellRect;
use crate::metrics::spec_scaled;
use crate::packing::cells_hold;
use crate::packing::lemma_capacity;
use crate::packing::lemma_grid_capacity;
use crate::metrics::GlyphMetrics;
use crate::metrics::Ratio;

verus! {

broadcast use vstd::std_specs::hash::group_hash_axioms;

/// Side of the atlas that `SaikoFontSdf::default` makes, in pixels.
pub const FONT_ATLAS_DIMS: u32 = 2048;

/// Side of a glyph cell that `SaikoFontSdf::default` makes, in pixels.
pub const DEFAULT_GLYPH_SIZE: u32 = 40;

/// The horizontal advance of a space, in tenths of the text height.
pub const SPACE_ADVANCE_TENTHS: i32 = 1;

/// The Unicode scalar value of the space.
pub const SPACE_CODE: u32 = 32;

/// The atlas bitmap `atlas`, of side `dims`, after the `width` by `height`
/// image `image` was written with its top left corner at `(x0, y0)`: inside
/// that window the distance channels come from the image and alpha stays;
/// outside it nothing changes.
pub open spec fn spec_blit(
    atlas: Seq<Rgba>,
    dims: int,
    image: Seq<Rgb>,
    width: int,
    height: int,
    x0: int,
    y0: int,
) -> Seq<Rgba> {
    spec_blit_rows(atlas, dims, image, width, height, x0, y0, height, 0)
}

/// As `spec_blit`, with only the first `rows` rows of the image written and
/// the first `cols` pixels of the row after them.
pub open spec fn spec_blit_rows(
    atlas: Seq<Rgba>,
    dims: int,
    image: Seq<Rgb>,
    width: int,
    height: int,
    x0: int,
    y0: int,
    rows: int,
    cols: int,
) -> Seq<Rgba> {
    Seq::new(
        atlas.len(),
        |i: int|
            {
                let x = i % dims - x0;
                let y = i / dims - y0;
                if 0 <= x < width && 0 <= y < height && (y < rows || (y == rows && x < cols)) {
                    atlas[i].spec_with_rgb(image[y * width + x])
                } else {
                    atlas[i]
                }
            },
    )
}

/// The four bytes of a channel, least significant first.
pub open spec fn spec_channel_bytes(v: u32) -> Seq<u8> {
    seq![
        (v % 256) as u8,
        ((v / 256) % 256) as u8,
        ((v / 65536) % 256) as u8,
        ((v / 16777216) % 256) as u8,
    ]
}

/// The sixteen bytes of a pixel: red, green, blue, alpha.
pub open spec fn spec_pixel_bytes(p: Rgba) -> Seq<u8> {
    spec_channel_bytes(p.r) + spec_channel_bytes(p.g) + spec_channel_bytes(p.b)
        + spec_channel_bytes(p.a)
}

/// The bytes of a row of pixels, pixel after pixel.
pub open spec fn spec_raw_data(pixels: Seq<Rgba>) -> Seq<u8>
    decreases pixels.len(),
{
    if pixels.len() == 0 {
        Seq::empty()
    } else {
        spec_raw_data(pixels.drop_last()) + spec_pixel_bytes(pixels.last())
    }
}

/// The raw buffer holds sixteen bytes for each pixel.
pub proof fn lemma_raw_data_len(pixels: Seq<Rgba>)
    ensures
        spec_raw_data(pixels).len() == PIXEL_BYTES * pixels.len(),
    decreases pixels.len(),
{
    if pixels.len() > 0 {
        lemma_raw_data_len(pixels.drop_last());
    }
}

/// Appends the four bytes of `v` to `out`.
fn push_channel(out: &mut Vec<u8>, v: u32)
    ensures
        final(out)@ == old(out)@ + spec_channel_bytes(v),
{
    out.push((v % 256) as u8);
    out.push(((v / 256) % 256) as u8);
    out.push(((v / 65536) % 256) as u8);
    out.push(((v / 16777216) % 256) as u8);
    assert(out@ =~= old(out)@ + spec_channel_bytes(v));
}

/// The index of the pixel in column `x` of row `y` in a bitmap of side `dims`.
fn pixel_index(x: u32, y: u32, dims: u32) -> (i: usize)
    requires
        x < dims,
        y < dims,
        dims <= MAX_ATLAS_DIMS,
    ensures
        i == y * dims + x,
        i < dims * dims,
        i as int / dims as int == y,
        i as int % dims as int == x,
{
    proof {
        lemma_index_in_grid(x as int, y as int, dims as int, dims as int);
        assert(dims * dims <= 0x4000_0000) by (nonlinear_arith)
            requires
                0 <= dims <= 0x8000,
        ;
    }
    y as usize * dims as usize + x as usize
}

/// A glyph atlas of signed distance fields.
///
/// The atlas is a square bitmap divided into cells of one size. Each cached
/// character owns one cell, which holds its image, and has its metrics
/// stored beside it. Every change of the bitmap raises the dirty flag; the
/// one who uploads the bitmap lowers it again.
pub struct SaikoFontSdf {
    bitmap: Vec<Rgba>,
    allocator: CellAllocator,
    glyph_data: HashMap<u32, GlyphMetrics>,
    atlas_dims: u32,
    glyph_size: u32,
    is_dirty: bool,
}

impl SaikoFontSdf {
    /// The bitmap, row by row from the top.
    pub closed spec fn spec_pixels(&self) -> Seq<Rgba> {
        self.bitmap@
    }

    /// The allocated cells, by identifier.
    pub closed spec fn spec_cells(&self) -> Map<u32, CellRect> {
        self.allocator.cells()
    }

    /// The metrics of the cached characters, by Unicode scalar value.
    pub closed spec fn spec_metrics(&self) -> Map<u32, GlyphMetrics> {
        self.glyph_data@
    }

    /// Side of the atlas in pixels.
    pub closed spec fn spec_atlas_dims(&self) -> int {
        self.atlas_dims as int
    }

    /// Side of a glyph cell in pixels.
    pub closed spec fn spec_glyph_size(&self) -> int {
        self.glyph_size as int
    }

    /// The bitmap changed since the flag was last lowered.
    pub closed spec fn spec_is_dirty(&self) -> bool {
        self.is_dirty
    }

    /// The atlas is consistent: the bitmap has its size, the allocator is
    /// consistent, and each cached character owns an allocated cell of its
    /// own that has room for a glyph image.
    pub closed spec fn wf(&self) -> bool {
        &&& self.allocator.wf()
        &&& self.allocator.spec_width() == self.atlas_dims
        &&& self.allocator.spec_height() == self.atlas_dims
        &&& 0 < self.atlas_dims <= MAX_ATLAS_DIMS
        &&& self.bitmap@.len() == self.atlas_dims * self.atlas_dims
        &&& cells_hold(self.allocator.cells(), self.glyph_size as int, self.glyph_size as int)
        &&& forall|k: u32| #[trigger]
            self.glyph_data@.contains_key(k) ==> self.owns_cell(self.glyph_data@[k])
        &&& forall|j: u32, k: u32|
            #![trigger self.glyph_data@.contains_key(j), self.glyph_data@.contains_key(k)]
            self.glyph_data@.contains_key(j) && self.glyph_data@.contains_key(k) && j != k
                ==> self.glyph_data@[j].allocation->0.id != self.glyph_data@[k].allocation->0.id
    }

    /// The metrics name an allocated cell with room for a glyph image.
    pub closed spec fn owns_cell(&self, metrics: GlyphMetrics) -> bool {
        &&& metrics.allocation matches Some(cell)
        &&& self.allocator.cells().contains_key(cell.id)
        &&& self.allocator.cells()[cell.id] == cell.rectangle
        &&& cell.rectangle.holds(self.glyph_size as int, self.glyph_size as int)
    }

    /// The two atlases have the same size, cells, metrics, pixels and flag.
    pub open spec fn same_state(&self, other: &SaikoFontSdf) -> bool {
        &&& self.spec_atlas_dims() == other.spec_atlas_dims()
        &&& self.spec_glyph_size() == other.spec_glyph_size()
        &&& self.spec_cells() == other.spec_cells()
        &&& self.spec_metrics() == other.spec_metrics()
        &&& self.spec_pixels() == other.spec_pixels()
        &&& self.spec_is_dirty() == other.spec_is_dirty()
    }

    /// `self` is `pre` with the dirty flag raised: size, cells, metrics and
    /// pixels are the same.
    pub open spec fn marked_dirty(&self, pre: &SaikoFontSdf) -> bool {
        &&& self.spec_atlas_dims() == pre.spec_atlas_dims()
        &&& self.spec_glyph_size() == pre.spec_glyph_size()
        &&& self.spec_cells() == pre.spec_cells()
        &&& self.spec_metrics() == pre.spec_metrics()
        &&& self.spec_pixels() == pre.spec_pixels()
        &&& self.spec_is_dirty()
    }

    /// Whether the atlas, as it stands, has a free cell for one more glyph:
    /// the glyph size is not zero, fits the atlas, and the allocator has
    /// room for it.
    pub closed spec fn spec_has_room(&self) -> bool {
        &&& 0 < self.glyph_size <= self.atlas_dims
        &&& self.allocator.has_room(self.glyph_size as i32, self.glyph_size as i32)
    }

    /// What a consistent atlas guarantees of its size and its cells.
    pub proof fn lemma_wf(&self)
        requires
            self.wf(),
        ensures
            0 < self.spec_atlas_dims() <= MAX_ATLAS_DIMS,
            self.spec_pixels().len() == self.spec_atlas_dims() * self.spec_atlas_dims(),
            self.spec_cells().dom().finite(),
            self.spec_cells().dom().len() <= MAX_CELLS,
            crate::allocator::cells_inside(
                self.spec_cells(),
                self.spec_atlas_dims(),
                self.spec_atlas_dims(),
            ),
            crate::allocator::cells_disjoint(self.spec_cells()),
            cells_hold(self.spec_cells(), self.spec_glyph_size(), self.spec_glyph_size()),
            forall|c: u32| #[trigger]
                self.spec_metrics().contains_key(c) ==> {
                    &&& self.spec_metrics()[c].allocation matches Some(cell)
                    &&& self.spec_cells().contains_key(cell.id)
                    &&& self.spec_cells()[cell.id] == cell.rectangle
                    &&& cell.rectangle.holds(self.spec_glyph_size(), self.spec_glyph_size())
                },
    {
        self.allocator.lemma_wf();
    }

    /// Two different cached characters own different cells.
    pub proof fn lemma_distinct_cells(&self, a: u32, b: u32)
        requires
            self.wf(),
            self.spec_metrics().contains_key(a),
            self.spec_metrics().contains_key(b),
            a != b,
        ensures
            self.spec_metrics()[a].allocation->0.id != self.spec_metrics()[b].allocation->0.id,
    {
    }

    /// An empty atlas of `atlas_dims` by `atlas_dims` pixels with cells of
    /// `glyph_size` by `glyph_size`, flagged dirty so that it is uploaded
    /// once. `None` where `atlas_dims` is zero or above `MAX_ATLAS_DIMS`.
    pub fn new(atlas_dims: u32, glyph_size: u32) -> (r: Option<SaikoFontSdf>)
        ensures
            r is Some <==> 0 < atlas_dims <= MAX_ATLAS_DIMS,
            r matches Some(atlas) ==> {
                &&& atlas.wf()
                &&& atlas.spec_atlas_dims() == atlas_dims
                &&& atlas.spec_glyph_size() == glyph_size
                &&& atlas.spec_cells() == (Map::<u32, CellRect>::empty())
                &&& atlas.spec_metrics() == (Map::<u32, GlyphMetrics>::empty())
                &&& atlas.spec_pixels() == Seq::new(
                    (atlas_dims * atlas_dims) as nat,
                    |i: int| Rgba::spec_blank(),
                )
                &&& atlas.spec_is_dirty()
            },
    {
        if atlas_dims == 0 || atlas_dims > MAX_ATLAS_DIMS as u32 {
            return None;
        }
        assert(0 < atlas_dims * atlas_dims <= 0x4000_0000) by (nonlinear_arith)
            requires
                0 < atlas_dims <= 0x8000,
        ;
        let allocator = match CellAllocator::new(atlas_dims as i32, atlas_dims as i32) {
            Some(a) => a,
            None => {
                return None;
            },
        };
        let bitmap = vec![Rgba::blank(); atlas_dims as usize * atlas_dims as usize];
        let glyph_data: HashMap<u32, GlyphMetrics> = HashMap::new();
        let atlas = SaikoFontSdf {
            bitmap,
            allocator,
            glyph_data,
            atlas_dims,
            glyph_size,
            is_dirty: true,
        };
        proof {
            assert(atlas.spec_metrics() =~= Map::<u32, GlyphMetrics>::empty());
            assert(atlas.spec_pixels() =~= Seq::new(
                (atlas_dims * atlas_dims) as nat,
                |i: int| Rgba::spec_blank(),
            ));
        }
        Some(atlas)
    }

    /// Side of the atlas in pixels.
    pub fn atlas_dims(&self) -> (r: u32)
        ensures
            r == self.spec_atlas_dims(),
    {
        self.atlas_dims
    }

    /// Side of a glyph cell in pixels.
    pub fn glyph_size(&self) -> (r: u32)
        ensures
            r == self.spec_glyph_size(),
    {
        self.glyph_size
    }

    /// Number of allocated cells.
    pub fn allocated_cells(&self) -> (n: u32)
        requires
            self.wf(),
        ensures
            n == self.spec_cells().dom().len(),
    {
        self.allocator.len()
    }

    /// Whether the bitmap changed since the flag was last lowered.
    pub fn is_dirty(&self) -> (r: bool)
        ensures
            r == self.spec_is_dirty(),
    {
        self.is_dirty
    }

    /// Lowers the dirty flag. To be called once the bitmap was uploaded;
    /// nothing else changes.
    pub fn reset_dirty(&mut self)
        ensures
            !final(self).spec_is_dirty(),
            final(self).wf() == old(self).wf(),
            final(self).spec_atlas_dims() == old(self).spec_atlas_dims(),
            final(self).spec_glyph_size() == old(self).spec_glyph_size(),
            final(self).spec_cells() == old(self).spec_cells(),
            final(self).spec_metrics() == old(self).spec_metrics(),
            final(self).spec_pixels() == old(self).spec_pixels(),
    {
        self.is_dirty = false;
    }

    /// The pixel in column `x` of row `y`.
    pub fn pixel(&self, x: u32, y: u32) -> (p: &Rgba)
        requires
            self.wf(),
            x < self.spec_atlas_dims(),
            y < self.spec_atlas_dims(),
        ensures
            0 <= y * self.spec_atlas_dims() + x < self.spec_pixels().len(),
            *p == self.spec_pixels()[y * self.spec_atlas_dims() + x],
    {
        &self.bitmap[pixel_index(x, y, self.atlas_dims)]
    }

    /// Writes the pixel in column `x` of row `y` and raises the dirty flag.
    pub fn set_pixel(&mut self, x: u32, y: u32, value: Rgba)
        requires
            old(self).wf(),
            x < old(self).spec_atlas_dims(),
            y < old(self).spec_atlas_dims(),
        ensures
            final(self).wf(),
            final(self).spec_is_dirty(),
            final(self).spec_atlas_dims() == old(self).spec_atlas_dims(),
            final(self).spec_glyph_size() == old(self).spec_glyph_size(),
            final(self).spec_cells() == old(self).spec_cells(),
            final(self).spec_metrics() == old(self).spec_metrics(),
            0 <= y * old(self).spec_atlas_dims() + x < old(self).spec_pixels().len(),
            final(self).spec_pixels() == old(self).spec_pixels().update(
                y * old(self).spec_atlas_dims() + x,
                value,
            ),
    {
        let index = pixel_index(x, y, self.atlas_dims);
        self.is_dirty = true;
        self.bitmap.set(index, value);
    }

    /// Writes `bitmap` into the cell of `allocation`, with its top left
    /// corner at the cell's, and raises the dirty flag.
    fn insert_bitmap(&mut self, bitmap: &GlyphBitmap, allocation: Allocation)
        requires
            old(self).wf(),
            bitmap.wf(),
            old(self).spec_cells().contains_key(allocation.id),
            old(self).spec_cells()[allocation.id].holds(
                bitmap.spec_width(),
                bitmap.spec_height(),
            ),
        ensures
            final(self).wf(),
            final(self).spec_is_dirty(),
            final(self).spec_atlas_dims() == old(self).spec_atlas_dims(),
            final(self).spec_glyph_size() == old(self).spec_glyph_size(),
            final(self).spec_cells() == old(self).spec_cells(),
            final(self).spec_metrics() == old(self).spec_metrics(),
            final(self).spec_pixels() == spec_blit(
                old(self).spec_pixels(),
                old(self).spec_atlas_dims(),
                bitmap@,
                bitmap.spec_width(),
                bitmap.spec_height(),
                old(self).spec_cells()[allocation.id].min_x as int,
                old(self).spec_cells()[allocation.id].min_y as int,
            ),
    {
        let rect = self.allocator.get(allocation.id);
        proof {
            self.allocator.lemma_wf();
            bitmap.lemma_wf();
        }
        let width = bitmap.width();
        let height = bitmap.height();
        let dims = self.atlas_dims;
        let x0 = rect.min_x as u32;
        let y0 = rect.min_y as u32;
        let ghost pre = self.bitmap@;
        let mut y: u32 = 0;
        while y < height
            invariant
                0 <= y <= height,
                width == bitmap.spec_width(),
                height == bitmap.spec_height(),
                bitmap.wf(),
                dims == self.atlas_dims,
                0 < dims <= MAX_ATLAS_DIMS,
                x0 + width <= dims,
                y0 + height <= dims,
                self.allocator == old(self).allocator,
                self.glyph_data == old(self).glyph_data,
                self.atlas_dims == old(self).atlas_dims,
                self.glyph_size == old(self).glyph_size,
                pre.len() == dims * dims,
                self.bitmap@ == spec_blit_rows(
                    pre,
                    dims as int,
                    bitmap@,
                    width as int,
                    height as int,
                    x0 as int,
                    y0 as int,
                    y as int,
                    0,
                ),
            decreases height - y,
        {
            let mut x: u32 = 0;
            while x < width
                invariant
                    0 <= y < height,
                    0 <= x <= width,
                    width == bitmap.spec_width(),
                    height == bitmap.spec_height(),
                    bitmap.wf(),
                    dims == self.atlas_dims,
                    0 < dims <= MAX_ATLAS_DIMS,
                    x0 + width <= dims,
                    y0 + height <= dims,
                    self.allocator == old(self).allocator,
                    self.glyph_data == old(self).glyph_data,
                    self.atlas_dims == old(self).atlas_dims,
                    self.glyph_size == old(self).glyph_size,
                    pre.len() == dims * dims,
                    self.bitmap@ == spec_blit_rows(
                        pre,
                        dims as int,
                        bitmap@,
                        width as int,
                        height as int,
                        x0 as int,
                        y0 as int,
                        y as int,
                        x as int,
                    ),
                decreases width - x,
            {
                let source = bitmap.pixel(x, y);
                let index = pixel_index(x0 + x, y0 + y, dims);
                let target = self.bitmap[index].with_rgb(source);
                let ghost before = self.bitmap@;
                self.bitmap.set(index, target);
                proof {
                    let after = spec_blit_rows(
                        pre,
                        dims as int,
                        bitmap@,
                        width as int,
                        height as int,
                        x0 as int,
                        y0 as int,
                        y as int,
                        x + 1,
                    );
                    assert forall|i: int| 0 <= i < pre.len() implies #[trigger] self.bitmap@[i]
                        == after[i] by {
                        vstd::arithmetic::div_mod::lemma_fundamental_div_mod(i, dims as int);
                        let column = i % (dims as int) - x0;
                        let row = i / (dims as int) - y0;
                        if i == index {
                            assert(column == x && row == y);
                            assert(before[i] == pre[i]);
                        } else {
                            assert(self.bitmap@[i] == before[i]);
                            if column == x && row == y {
                                assert(dims * (y0 + y) == (y0 + y) * dims) by (nonlinear_arith);
                                assert(false);
                            }
                        }
                    }
                    assert(self.bitmap@ =~= after);
                }
                x = x + 1;
            }
            proof {
                assert(self.bitmap@ =~= spec_blit_rows(
                    pre,
                    dims as int,
                    bitmap@,
                    width as int,
                    height as int,
                    x0 as int,
                    y0 as int,
                    y + 1,
                    0,
                ));
            }
            y = y + 1;
        }
        self.is_dirty = true;
    }

    /// Whether `character` is cached.
    pub fn contains(&self, character: char) -> (r: bool)
        ensures
            r == self.spec_metrics().contains_key(character as u32),
    {
        self.glyph_data.contains_key(&(character as u32))
    }

    /// The metrics of `character`, if it is cached.
    pub fn metrics(&self, character: char) -> (r: Option<&GlyphMetrics>)
        ensures
            match r {
                Some(m) => self.spec_metrics().contains_key(character as u32) && *m
                    == self.spec_metrics()[character as u32],
                None => !self.spec_metrics().contains_key(character as u32),
            },
    {
        self.glyph_data.get(&(character as u32))
    }

    /// The cell of `character`, if it is cached.
    fn cached_cell(&self, character: char) -> (r: Option<Allocation>)
        requires
            self.wf(),
        ensures
            r is Some <==> self.spec_metrics().contains_key(character as u32),
            r is Some ==> r == self.spec_metrics()[character as u32].allocation,
    {
        match self.glyph_data.get(&(character as u32)) {
            Some(known) => {
                proof {
                    assert(self.glyph_data@.contains_key(character as u32));
                    assert(self.owns_cell(self.glyph_data@[character as u32]));
                }
                known.allocation
            },
            None => None,
        }
    }

    /// Takes a cell for `character` and stores the metrics that `glyph`
    /// gives for it. Nothing changes where no cell can be had.
    fn allocate_glyph(&mut self, character: char, glyph: &FontGlyph) -> (r: Option<Allocation>)
        requires
            old(self).wf(),
            !old(self).spec_metrics().contains_key(character as u32),
        ensures
            final(self).wf(),
            final(self).spec_atlas_dims() == old(self).spec_atlas_dims(),
            final(self).spec_glyph_size() == old(self).spec_glyph_size(),
            final(self).spec_pixels() == old(self).spec_pixels(),
            final(self).spec_is_dirty() == old(self).spec_is_dirty(),
            r is Some <==> old(self).spec_has_room(),
            r is None ==> final(self).same_state(old(self)),
            old(self).spec_glyph_size() == 0 || old(self).spec_glyph_size() > old(
                self,
            ).spec_atlas_dims() || old(self).spec_cells().dom().len() >= MAX_CELLS ==> r is None,
            old(self).spec_cells().dom().len() == 0 && 0 < old(self).spec_glyph_size() <= old(
                self,
            ).spec_atlas_dims() ==> r is Some,
            r matches Some(cell) ==> Self::cell_taken(old(self), final(self), cell)
                && final(self).spec_metrics() == old(self).spec_metrics().insert(
                character as u32,
                GlyphMetrics::spec_from_font_glyph(*glyph, cell),
            ),
    {
        if self.glyph_size == 0 || self.glyph_size > self.atlas_dims {
            return None;
        }
        let size = self.glyph_size as i32;
        let cell = match self.allocator.allocate(size, size) {
            Some(cell) => cell,
            None => {
                return None;
            },
        };
        let glyph_metrics = GlyphMetrics::from_font_glyph(glyph, cell);
        self.glyph_data.insert(character as u32, glyph_metrics);
        proof {

            assert forall|k: u32| #[trigger] self.glyph_data@.contains_key(k) implies self.owns_cell(
                self.glyph_data@[k],
            ) by {
                if k != character as u32 {
                    assert(old(self).glyph_data@.contains_key(k));
                    assert(old(self).owns_cell(old(self).glyph_data@[k]));
                }
            }
            assert forall|j: u32, k: u32|
                #![trigger self.glyph_data@.contains_key(j), self.glyph_data@.contains_key(k)]
                self.glyph_data@.contains_key(j) && self.glyph_data@.contains_key(k) && j
                    != k implies self.glyph_data@[j].allocation->0.id
                != self.glyph_data@[k].allocation->0.id by {
                if j != character as u32 {
                    assert(old(self).glyph_data@.contains_key(j));
                    assert(old(self).owns_cell(old(self).glyph_data@[j]));
                }
                if k != character as u32 {
                    assert(old(self).glyph_data@.contains_key(k));
                    assert(old(self).owns_cell(old(self).glyph_data@[k]));
                }
            }
        }
        Some(cell)
    }

    /// Gives the cell of `character` back and forgets its metrics.
    fn release_glyph(&mut self, character: char, cell: Allocation)
        requires
            old(self).wf(),
            old(self).spec_metrics().contains_key(character as u32),
            old(self).spec_metrics()[character as u32].allocation == Some(cell),
        ensures
            final(self).wf(),
            final(self).spec_atlas_dims() == old(self).spec_atlas_dims(),
            final(self).spec_glyph_size() == old(self).spec_glyph_size(),
            final(self).spec_pixels() == old(self).spec_pixels(),
            final(self).spec_is_dirty() == old(self).spec_is_dirty(),
            final(self).spec_cells() == old(self).spec_cells().remove(cell.id),
            final(self).spec_metrics() == old(self).spec_metrics().remove(character as u32),
    {
        proof {
            assert(old(self).glyph_data@.contains_key(character as u32));
            assert(old(self).owns_cell(old(self).glyph_data@[character as u32]));
        }
        self.allocator.deallocate(cell.id);
        self.glyph_data.remove(&(character as u32));
        proof {
            assert forall|k: u32| #[trigger] self.glyph_data@.contains_key(k) implies self.owns_cell(
                self.glyph_data@[k],
            ) by {
                assert(old(self).glyph_data@.contains_key(k));
                assert(old(self).owns_cell(old(self).glyph_data@[k]));
                assert(old(self).glyph_data@.contains_key(character as u32));
            }
            assert forall|j: u32, k: u32|
                #![trigger self.glyph_data@.contains_key(j), self.glyph_data@.contains_key(k)]
                self.glyph_data@.contains_key(j) && self.glyph_data@.contains_key(k) && j
                    != k implies self.glyph_data@[j].allocation->0.id
                != self.glyph_data@[k].allocation->0.id by {
                assert(old(self).glyph_data@.contains_key(j));
                assert(old(self).glyph_data@.contains_key(k));
            }
        }
    }

    /// The step from `pre` to `post` took the fresh cell `cell`: it lies
    /// inside the atlas, has room for a glyph image and overlaps no cell
    /// that `pre` holds.
    pub open spec fn cell_taken(pre: &SaikoFontSdf, post: &SaikoFontSdf, cell: Allocation) -> bool {
        &&& !pre.spec_cells().contains_key(cell.id)
        &&& post.spec_cells() == pre.spec_cells().insert(cell.id, cell.rectangle)
        &&& cell.rectangle.is_nonempty()
        &&& cell.rectangle.inside(pre.spec_atlas_dims(), pre.spec_atlas_dims())
        &&& cell.rectangle.holds(pre.spec_glyph_size(), pre.spec_glyph_size())
        &&& forall|other: u32| #[trigger]
            pre.spec_cells().contains_key(other) ==> !pre.spec_cells()[other].overlaps(
                cell.rectangle,
            )
    }

    /// `image` is a glyph image of the atlas's cell size.
    pub open spec fn image_fits(&self, image: Option<&GlyphBitmap>) -> bool {
        &&& image matches Some(bitmap)
        &&& bitmap.spec_width() == self.spec_glyph_size()
        &&& bitmap.spec_height() == self.spec_glyph_size()
    }

    /// The step from `pre` to `post` cached `character`: it took the cell
    /// `cell`, stored the metrics that `glyph` gives, wrote `image` into the
    /// cell and raised the dirty flag.
    pub open spec fn glyph_cached(
        pre: &SaikoFontSdf,
        post: &SaikoFontSdf,
        character: char,
        glyph: FontGlyph,
        image: &GlyphBitmap,
        cell: Allocation,
    ) -> bool {
        &&& Self::cell_taken(pre, post, cell)
        &&& post.spec_metrics() == pre.spec_metrics().insert(
            character as u32,
            GlyphMetrics::spec_from_font_glyph(glyph, cell),
        )
        &&& post.spec_pixels() == spec_blit(
            pre.spec_pixels(),
            pre.spec_atlas_dims(),
            image@,
            pre.spec_glyph_size(),
            pre.spec_glyph_size(),
            cell.rectangle.min_x as int,
            cell.rectangle.min_y as int,
        )
        &&& post.spec_is_dirty()
    }

    /// Caches `character` from its record `glyph` and its image.
    ///
    /// Where the character is cached already, its cell is returned and the
    /// dirty flag is raised; nothing else changes. Else the call succeeds
    /// exactly when the atlas has room and `image` is of the cell size: a
    /// cell is taken, the metrics are stored, the image is written into the
    /// cell and the flag is raised. It fails with `AtlasFull` exactly when
    /// the atlas has no room, and with `FramingFailed` exactly when it has
    /// room but `image` is absent or not of the cell size; a failed call
    /// leaves the atlas as it was, with the cell given back.
    pub fn insert_glyph(
        &mut self,
        character: char,
        glyph: &FontGlyph,
        image: Option<&GlyphBitmap>,
    ) -> (r: Result<Allocation, SaikoSdfFontError>)
        requires
            old(self).wf(),
            image matches Some(bitmap) ==> bitmap.wf(),
        ensures
            Self::insert_glyph_step(old(self), final(self), character, *glyph, image, r),
    {
        if let Some(cell) = self.cached_cell(character) {
            self.is_dirty = true;
            return Ok(cell);
        }
        let cell = match self.allocate_glyph(character, glyph) {
            Some(cell) => cell,
            None => {
                return Err(SaikoSdfFontError::AtlasFull);
            },
        };
        let fitting = match image {
            Some(bitmap) => if bitmap.width() == self.glyph_size && bitmap.height()
                == self.glyph_size {
                Some(bitmap)
            } else {
                None
            },
            None => None,
        };
        match fitting {
            Some(bitmap) => {
                self.insert_bitmap(bitmap, cell);
                Ok(cell)
            },
            None => {
                self.release_glyph(character, cell);
                proof {
                    assert(self.spec_cells() =~= old(self).spec_cells());
                    assert(self.spec_metrics() =~= old(self).spec_metrics());
                }
                Err(SaikoSdfFontError::FramingFailed)
            },
        }
    }

    /// What one call of `insert_glyph` does: how `post` and the result `r`
    /// relate to `pre` and the arguments.
    pub open spec fn insert_glyph_step(
        pre: &SaikoFontSdf,
        post: &SaikoFontSdf,
        character: char,
        glyph: FontGlyph,
        image: Option<&GlyphBitmap>,
        r: Result<Allocation, SaikoSdfFontError>,
    ) -> bool {
        &&& post.wf()
        &&& post.spec_atlas_dims() == pre.spec_atlas_dims()
        &&& post.spec_glyph_size() == pre.spec_glyph_size()
        &&& if pre.spec_metrics().contains_key(character as u32) {
            &&& r is Ok
            &&& pre.spec_metrics()[character as u32].allocation == Some(r->Ok_0)
            &&& post.marked_dirty(pre)
        } else {
            &&& r is Ok <==> pre.spec_has_room() && pre.image_fits(image)
            &&& match r {
                Ok(cell) => Self::glyph_cached(pre, post, character, glyph, image->0, cell),
                Err(e) => {
                    &&& post.same_state(pre)
                    &&& e == SaikoSdfFontError::AtlasFull <==> !pre.spec_has_room()
                    &&& e == SaikoSdfFontError::FramingFailed <==> pre.spec_has_room()
                },
            }
            &&& pre.spec_glyph_size() == 0 || pre.spec_glyph_size() > pre.spec_atlas_dims()
                || pre.spec_cells().dom().len() >= MAX_CELLS ==> r == Err::<
                Allocation,
                SaikoSdfFontError,
            >(SaikoSdfFontError::AtlasFull)
            &&& pre.spec_cells().dom().len() == 0 && 0 < pre.spec_glyph_size()
                <= pre.spec_atlas_dims() && pre.image_fits(image) ==> r is Ok
        }
    }

    /// Caches `character` from `font`, with `image` as its glyph image.
    ///
    /// Returns `false` and changes nothing where the face has no glyph for
    /// the character or the glyph has no outline, whether the character is
    /// cached or not. Else, where the character is cached already, returns
    /// `true` and raises the dirty flag; nothing else changes. Else the
    /// character is added, and `true` returned, exactly when the atlas has
    /// room and `image` is of the cell size; where it is not added nothing
    /// changes. Every call that returns `true` leaves the flag raised.
    pub fn add_glyph(&mut self, font: &Face, character: char, image: Option<&GlyphBitmap>) -> (added:
        bool)
        requires
            old(self).wf(),
            image matches Some(bitmap) ==> bitmap.wf(),
        ensures
            Self::add_glyph_step(old(self), final(self), font, character, image, added),
    {
        match lookup_glyph(font, character) {
            Err(_) => false,
            Ok(glyph) => match self.insert_glyph(character, &glyph, image) {
                Ok(_) => true,
                Err(_) => false,
            },
        }
    }

    /// What one call of `add_glyph` does: how `post` and the result `added`
    /// relate to `pre` and the arguments.
    pub open spec fn add_glyph_step(
        pre: &SaikoFontSdf,
        post: &SaikoFontSdf,
        font: &Face,
        character: char,
        image: Option<&GlyphBitmap>,
        added: bool,
    ) -> bool {
        &&& post.wf()
        &&& post.spec_atlas_dims() == pre.spec_atlas_dims()
        &&& post.spec_glyph_size() == pre.spec_glyph_size()
        &&& added ==> post.spec_is_dirty()
        &&& match spec_lookup_glyph(font, character) {
            Err(_) => !added && post.same_state(pre),
            Ok(glyph) => if pre.spec_metrics().contains_key(character as u32) {
                added && post.marked_dirty(pre)
            } else if added {
                &&& post.spec_metrics().contains_key(character as u32)
                &&& post.spec_metrics()[character as u32].allocation is Some
                &&& Self::glyph_cached(
                    pre,
                    post,
                    character,
                    glyph,
                    image->0,
                    post.spec_metrics()[character as u32].allocation->0,
                )
            } else {
                post.same_state(pre)
            },
        }
        &&& !pre.spec_metrics().contains_key(character as u32) ==> (added <==> spec_lookup_glyph(
            font,
            character,
        ) is Ok && pre.image_fits(image) && pre.spec_has_room())
        &&& !pre.spec_metrics().contains_key(character as u32) && (pre.spec_glyph_size() == 0
            || pre.spec_glyph_size() > pre.spec_atlas_dims() || pre.spec_cells().dom().len()
            >= MAX_CELLS) ==> !added
        &&& pre.spec_cells().dom().len() == 0 && 0 < pre.spec_glyph_size()
            <= pre.spec_atlas_dims() && pre.image_fits(image) && spec_lookup_glyph(
            font,
            character,
        ) is Ok ==> added
    }

    /// The image of a batch entry, as `add_glyph` takes it.
    pub open spec fn spec_image(image: &Option<GlyphBitmap>) -> Option<&GlyphBitmap> {
        match image {
            Some(bitmap) => Some(bitmap),
            None => None,
        }
    }

    /// The image that comes with the i-th character of a batch: `images[i]`,
    /// and none where `images` has no i-th entry.
    pub open spec fn spec_image_at(images: &Seq<Option<GlyphBitmap>>, i: int) -> Option<
        &GlyphBitmap,
    > {
        if 0 <= i < images.len() {
            Self::spec_image(&images[i])
        } else {
            None
        }
    }

    /// What `add_glyphs` does for one character: one that is cached is
    /// skipped, and nothing changes, the dirty flag included; for any other
    /// a call of `add_glyph` is made, with the result `added`.
    pub open spec fn add_glyphs_step(
        pre: &SaikoFontSdf,
        post: &SaikoFontSdf,
        font: &Face,
        character: char,
        image: Option<&GlyphBitmap>,
        added: bool,
    ) -> bool {
        if pre.spec_metrics().contains_key(character as u32) {
            post.wf() && post.same_state(pre)
        } else {
            Self::add_glyph_step(pre, post, font, character, image, added)
        }
    }

    /// What one call of `add_glyphs` does: `post` comes from `pre` by one
    /// step for each of `characters`, in their order, the i-th with
    /// `images[i]` as its image. A step that adds nothing leaves the atlas
    /// as it was, and the steps after it are taken all the same.
    pub open spec fn add_glyphs_steps(
        pre: &SaikoFontSdf,
        post: &SaikoFontSdf,
        font: &Face,
        characters: Seq<char>,
        images: Seq<Option<GlyphBitmap>>,
    ) -> bool
        decreases characters.len(),
    {
        if characters.len() == 0 {
            post.same_state(pre)
        } else {
            exists|mid: SaikoFontSdf, added: bool|
                {
                    &&& Self::add_glyphs_steps(pre, &mid, font, characters.drop_last(), images)
                    &&& #[trigger] Self::add_glyphs_step(
                        &mid,
                        post,
                        font,
                        characters.last(),
                        Self::spec_image_at(&images, characters.len() - 1),
                        added,
                    )
                }
        }
    }

    /// Caches each of `characters` from `font`, the i-th with `images[i]` as
    /// its glyph image, in their order. A character that is cached already
    /// is skipped; for any other a call of `add_glyph` is made, and one that
    /// cannot be added does not stop the others. A character for which
    /// `images` has no entry is taken as one without image.
    ///
    /// Nothing that was cached is changed or lost. Each character that is
    /// new in the cache is one of `characters`, came with an image of the
    /// cell size, and has the metrics that `font` gives for it.
    pub fn add_glyphs(&mut self, font: &Face, characters: &[char], images: &[Option<GlyphBitmap>])
        requires
            old(self).wf(),
            forall|i: int|
                0 <= i < images@.len() ==> (#[trigger] images@[i] matches Some(bitmap)
                    ==> bitmap.wf()),
        ensures
            final(self).wf(),
            Self::add_glyphs_steps(old(self), final(self), font, characters@, images@),
            final(self).spec_atlas_dims() == old(self).spec_atlas_dims(),
            final(self).spec_glyph_size() == old(self).spec_glyph_size(),
            old(self).spec_metrics().submap_of(final(self).spec_metrics()),
            old(self).spec_cells().submap_of(final(self).spec_cells()),
            old(self).spec_is_dirty() ==> final(self).spec_is_dirty(),
            final(self).spec_metrics() == old(self).spec_metrics() ==> final(self).same_state(
                old(self),
            ),
            forall|k: u32|
                #![trigger final(self).spec_metrics().contains_key(k)]
                final(self).spec_metrics().contains_key(k) && !old(
                    self,
                ).spec_metrics().contains_key(k) ==> final(self).spec_is_dirty() && exists|
                    i: int,
                |
                    Self::glyph_source(
                        font,
                        characters@,
                        images@,
                        old(self).spec_glyph_size(),
                        i,
                        k,
                        final(self).spec_metrics()[k],
                    ),
    {
        let mut index: usize = 0;
        while index < characters.len()
            invariant
                0 <= index <= characters@.len(),
                forall|i: int|
                    0 <= i < images@.len() ==> (#[trigger] images@[i] matches Some(bitmap)
                        ==> bitmap.wf()),
                self.wf(),
                Self::add_glyphs_steps(
                    old(self),
                    self,
                    font,
                    characters@.take(index as int),
                    images@,
                ),
                self.spec_atlas_dims() == old(self).spec_atlas_dims(),
                self.spec_glyph_size() == old(self).spec_glyph_size(),
                old(self).spec_metrics().submap_of(self.spec_metrics()),
                old(self).spec_cells().submap_of(self.spec_cells()),
                old(self).spec_is_dirty() ==> self.spec_is_dirty(),
                self.spec_metrics() == old(self).spec_metrics() ==> self.same_state(old(self)),
                forall|k: u32|
                    #![trigger self.spec_metrics().contains_key(k)]
                    self.spec_metrics().contains_key(k) && !old(self).spec_metrics().contains_key(
                        k,
                    ) ==> self.spec_is_dirty() && exists|i: int|
                        Self::glyph_source(
                            font,
                            characters@,
                            images@,
                            old(self).spec_glyph_size(),
                            i,
                            k,
                            self.spec_metrics()[k],
                        ),
            decreases characters@.len() - index,
        {
            let character = characters[index];
            let ghost before = *self;
            let image = if index < images.len() {
                images[index].as_ref()
            } else {
                None
            };
            let added = if self.contains(character) {
                false
            } else {
                self.add_glyph(font, character, image)
            };
            proof {
                let seen = characters@.take(index + 1);
                assert(seen.drop_last() =~= characters@.take(index as int));
                assert(seen.last() == character);
                assert(image == Self::spec_image_at(&images@, seen.len() - 1));
                assert(Self::add_glyphs_step(&before, self, font, seen.last(), image, added));
                assert(Self::add_glyphs_steps(old(self), self, font, seen, images@));
                let key = character as u32;
                assert(before.spec_cells().submap_of(self.spec_cells()));
                assert(before.spec_metrics().submap_of(self.spec_metrics()));
                assert forall|id: u32| #[trigger]
                    old(self).spec_cells().dom().contains(id) implies self.spec_cells().dom().contains(
                    id,
                ) && old(self).spec_cells()[id] == self.spec_cells()[id] by {
                    assert(before.spec_cells().dom().contains(id));
                }
                if !before.spec_metrics().contains_key(key) && added {
                    let metrics = self.spec_metrics()[key];
                    assert(Self::glyph_source(
                        font,
                        characters@,
                        images@,
                        old(self).spec_glyph_size(),
                        index as int,
                        key,
                        metrics,
                    ));
                    assert forall|k: u32|
                        #![trigger self.spec_metrics().contains_key(k)]
                        self.spec_metrics().contains_key(k) && !old(
                            self,
                        ).spec_metrics().contains_key(k) implies self.spec_is_dirty() && exists|
                        i: int,
                    |
                        Self::glyph_source(
                            font,
                            characters@,
                            images@,
                            old(self).spec_glyph_size(),
                            i,
                            k,
                            self.spec_metrics()[k],
                        ) by {
                        if k != key {
                            assert(before.spec_metrics().contains_key(k));
                            let i = choose|i: int|
                                Self::glyph_source(
                                    font,
                                    characters@,
                                    images@,
                                    old(self).spec_glyph_size(),
                                    i,
                                    k,
                                    before.spec_metrics()[k],
                                );
                            assert(Self::glyph_source(
                                font,
                                characters@,
                                images@,
                                old(self).spec_glyph_size(),
                                i,
                                k,
                                self.spec_metrics()[k],
                            ));
                        }
                    }
                    assert(!old(self).spec_metrics().contains_key(key));
                    assert(self.spec_metrics().contains_key(key));
                }
            }
            index = index + 1;
        }
        proof {
            assert(characters@.take(index as int) =~= characters@);
        }
    }

    /// The i-th of `characters` is the source of the cached entry `metrics`
    /// under `key`: it is that character, its image has the cell size, and
    /// the metrics are those that `font` gives for it.
    pub open spec fn glyph_source(
        font: &Face,
        characters: Seq<char>,
        images: Seq<Option<GlyphBitmap>>,
        glyph_size: int,
        i: int,
        key: u32,
        metrics: GlyphMetrics,
    ) -> bool {
        &&& 0 <= i < characters.len()
        &&& 0 <= i < images.len()
        &&& characters[i] as u32 == key
        &&& images[i] matches Some(bitmap)
        &&& bitmap.spec_width() == glyph_size
        &&& bitmap.spec_height() == glyph_size
        &&& spec_lookup_glyph(font, characters[i]) matches Ok(glyph)
        &&& metrics.allocation matches Some(cell)
        &&& metrics == GlyphMetrics::spec_from_font_glyph(glyph, cell)
    }

    /// The width that `character` takes in a line of text of height
    /// `font_size`: a tenth of the height for a space, the horizontal advance
    /// for a cached character, and nothing for any other.
    pub fn char_width(&self, character: char, font_size: u32) -> (r: Ratio)
        ensures
            r == self.spec_char_width(character, font_size),
    {
        if character as u32 == SPACE_CODE {
            return Ratio { num: font_size as i64, den: 10 };
        }
        match self.glyph_data.get(&(character as u32)) {
            Some(glyph) => glyph.h_advance(font_size),
            None => Ratio { num: 0, den: 1 },
        }
    }

    /// The width that `character` takes at a text height of `font_size`.
    pub open spec fn spec_char_width(&self, character: char, font_size: u32) -> Ratio {
        if character as u32 == SPACE_CODE {
            Ratio { num: font_size as i64, den: 10 }
        } else if self.spec_metrics().contains_key(character as u32) {
            spec_scaled(
                self.spec_metrics()[character as u32].h_advance,
                self.spec_metrics()[character as u32].units_per_em,
                font_size,
            )
        } else {
            Ratio { num: 0, den: 1 }
        }
    }

    /// The code points of `characters`, in their order.
    pub open spec fn spec_codes(characters: Seq<char>) -> Seq<u32> {
        Seq::new(characters.len(), |i: int| characters[i] as u32)
    }

    /// What `metrics_map` gives for `characters`: an entry for the space,
    /// where it is among them, with no extent and the fixed advance; and
    /// the stored metrics of each of the others that is cached.
    pub open spec fn spec_metrics_map(&self, characters: Seq<char>) -> Map<u32, GlyphMetrics> {
        Map::new(
            |k: u32|
                Self::spec_codes(characters).contains(k) && (k == SPACE_CODE
                    || self.spec_metrics().contains_key(k)),
            |k: u32|
                if k == SPACE_CODE {
                    GlyphMetrics::spec_space(SPACE_ADVANCE_TENTHS, 10)
                } else {
                    self.spec_metrics()[k]
                },
        )
    }

    /// The metrics of each of `characters` that has any, by Unicode scalar
    /// value. The space always gets metrics of its own, made up on the spot:
    /// no extent, no cell, and an advance of a tenth of the text height.
    pub fn metrics_map(&self, characters: &[char]) -> (map: HashMap<u32, GlyphMetrics>)
        ensures
            map@ == self.spec_metrics_map(characters@),
    {
        let mut map: HashMap<u32, GlyphMetrics> = HashMap::new();
        let mut index: usize = 0;
        assert(map@ =~= self.spec_metrics_map(characters@.take(0)));
        while index < characters.len()
            invariant
                0 <= index <= characters@.len(),
                map@ == self.spec_metrics_map(characters@.take(index as int)),
            decreases characters@.len() - index,
        {
            let character = characters[index];
            let key = character as u32;
            let ghost seen = characters@.take(index as int);
            let ghost next = characters@.take(index + 1);
            let ghost before = map@;
            if !map.contains_key(&key) {
                if key == SPACE_CODE {
                    map.insert(key, GlyphMetrics::space(SPACE_ADVANCE_TENTHS, 10));
                } else {
                    match self.glyph_data.get(&key) {
                        Some(glyph) => {
                            map.insert(key, *glyph);
                        },
                        None => {},
                    }
                }
            }
            proof {
                assert(next =~= seen.push(character));
                assert(Self::spec_codes(next) =~= Self::spec_codes(seen).push(key));
                assert forall|k: u32|
                    Self::spec_codes(next).contains(k) <==> (Self::spec_codes(seen).contains(k)
                        || k == key) by {
                    if Self::spec_codes(seen).contains(k) {
                        let i = choose|i: int|
                            0 <= i < Self::spec_codes(seen).len() && Self::spec_codes(seen)[i]
                                == k;
                        assert(Self::spec_codes(next)[i] == k);
                    }
                    if k == key {
                        assert(Self::spec_codes(next)[index as int] == k);
                    }
                }
                let target = self.spec_metrics_map(next);
                assert(before == self.spec_metrics_map(seen));
                assert(Self::spec_codes(next).contains(key));
                assert forall|k: u32| #[trigger] map@.contains_key(k) == target.contains_key(k) by {
                    if k != key {
                        assert(map@.contains_key(k) == before.contains_key(k));
                    }
                }
                assert forall|k: u32| #[trigger] map@.contains_key(k) implies map@[k]
                    == target[k] by {
                    if k != key {
                        assert(before.contains_key(k));
                    }
                }
                assert(map@ =~= target);
            }
            index = index + 1;
        }
        assert(characters@.take(index as int) =~= characters@);
        map
    }

    /// The bitmap, row by row from the top.
    pub fn pixels(&self) -> (r: &[Rgba])
        ensures
            r@ == self.spec_pixels(),
    {
        self.bitmap.as_slice()
    }

    /// The bitmap as bytes for upload: sixteen bytes a pixel, the four
    /// channels in the order red, green, blue, alpha, each least significant
    /// byte first.
    pub fn raw_data(&self) -> (bytes: Vec<u8>)
        ensures
            bytes@ == spec_raw_data(self.spec_pixels()),
            bytes@.len() == PIXEL_BYTES * self.spec_pixels().len(),
    {
        let mut out: Vec<u8> = Vec::new();
        let mut i: usize = 0;
        while i < self.bitmap.len()
            invariant
                0 <= i <= self.bitmap@.len(),
                out@ == spec_raw_data(self.bitmap@.take(i as int)),
            decreases self.bitmap@.len() - i,
        {
            let p = self.bitmap[i];
            let ghost before = out@;
            push_channel(&mut out, p.r);
            push_channel(&mut out, p.g);
            push_channel(&mut out, p.b);
            push_channel(&mut out, p.a);
            proof {
                let next = self.bitmap@.take(i + 1);
                assert(next.drop_last() =~= self.bitmap@.take(i as int));
                assert(next.last() == p);
                assert(out@ =~= before + spec_pixel_bytes(p));
            }
            i = i + 1;
        }
        proof {
            assert(self.bitmap@.take(i as int) =~= self.bitmap@);
            lemma_raw_data_len(self.bitmap@);
        }
        out
    }
}

impl Clone for SaikoFontSdf {
    /// A copy with the same cells, metrics, pixels and dirty flag.
    fn clone(&self) -> (r: SaikoFontSdf)
        ensures
            r.wf() == self.wf(),
            r.same_state(self),
    {
        let bitmap = self.bitmap.clone();
        assert(bitmap@ =~= self.bitmap@);
        let r = SaikoFontSdf {
            bitmap,
            allocator: self.allocator.clone(),
            glyph_data: self.glyph_data.clone(),
            atlas_dims: self.atlas_dims,
            glyph_size: self.glyph_size,
            is_dirty: self.is_dirty,
        };
        proof {
            assert(forall|m: GlyphMetrics| r.owns_cell(m) == self.owns_cell(m));
        }
        r
    }
}

impl Default for SaikoFontSdf {
    /// An empty atlas of `FONT_ATLAS_DIMS` pixels a side with cells of
    /// `DEFAULT_GLYPH_SIZE`, flagged dirty.
    fn default() -> (atlas: SaikoFontSdf)
        ensures
            atlas.wf(),
            atlas.spec_atlas_dims() == FONT_ATLAS_DIMS,
            atlas.spec_glyph_size() == DEFAULT_GLYPH_SIZE,
            atlas.spec_cells() == (Map::<u32, CellRect>::empty()),
            atlas.spec_metrics() == (Map::<u32, GlyphMetrics>::empty()),
            atlas.spec_pixels() == Seq::new(
                (FONT_ATLAS_DIMS * FONT_ATLAS_DIMS) as nat,
                |i: int| Rgba::spec_blank(),
            ),
            atlas.spec_is_dirty(),
    {
        SaikoFontSdf::new(FONT_ATLAS_DIMS, DEFAULT_GLYPH_SIZE).unwrap()
    }
}

/// Idempotence: once a call of `add_glyph` has returned `true` for a
/// character, a second call for it with the same face returns `true` and
/// changes nothing: the metrics are the same, no further cell is taken,
/// and the flag, raised by the first call, stays raised.
pub proof fn lemma_add_glyph_idempotent(
    start: &SaikoFontSdf,
    first: &SaikoFontSdf,
    second: &SaikoFontSdf,
    font: &Face,
    character: char,
    image1: Option<&GlyphBitmap>,
    image2: Option<&GlyphBitmap>,
    added1: bool,
    added2: bool,
)
    requires
        SaikoFontSdf::add_glyph_step(start, first, font, character, image1, added1),
        SaikoFontSdf::add_glyph_step(first, second, font, character, image2, added2),
        added1,
    ensures
        added2,
        second.same_state(first),
        second.spec_metrics().contains_key(character as u32),
        second.spec_metrics()[character as u32] == first.spec_metrics()[character as u32],
        second.spec_cells().dom().len() == first.spec_cells().dom().len(),
{
}

/// A call of `add_glyph` that returns `false` leaves the atlas as it was:
/// cells, metrics, pixels and the dirty flag.
pub proof fn lemma_failed_add_changes_nothing(
    pre: &SaikoFontSdf,
    post: &SaikoFontSdf,
    font: &Face,
    character: char,
    image: Option<&GlyphBitmap>,
    added: bool,
)
    requires
        SaikoFontSdf::add_glyph_step(pre, post, font, character, image, added),
        !added,
    ensures
        post.same_state(pre),
{
}

/// A character for which the face has no glyph or no outline gives
/// `false` and changes nothing, whether it is cached or not.
pub proof fn lemma_absent_character_fails(
    pre: &SaikoFontSdf,
    post: &SaikoFontSdf,
    font: &Face,
    character: char,
    image: Option<&GlyphBitmap>,
    added: bool,
)
    requires
        SaikoFontSdf::add_glyph_step(pre, post, font, character, image, added),
        spec_lookup_glyph(font, character) is Err,
    ensures
        !added,
        post.same_state(pre),
{
}

/// Dirty after success: every call of `add_glyph` that returns `true`
/// leaves the dirty flag raised and the character cached. Where the
/// character was not cached before, the call took exactly one cell; where
/// it was, none.
pub proof fn lemma_added_glyph_is_dirty(
    pre: &SaikoFontSdf,
    post: &SaikoFontSdf,
    font: &Face,
    character: char,
    image: Option<&GlyphBitmap>,
    added: bool,
)
    requires
        pre.wf(),
        SaikoFontSdf::add_glyph_step(pre, post, font, character, image, added),
        added,
    ensures
        post.spec_is_dirty(),
        post.spec_metrics().contains_key(character as u32),
        post.spec_cells().dom().len() == pre.spec_cells().dom().len() + (if pre.spec_metrics().contains_key(
            character as u32,
        ) {
            0int
        } else {
            1int
        }),
{
    pre.lemma_wf();
}

/// When `add_glyph` succeeds: for a character that is not cached, exactly
/// when the face holds a glyph with an outline for it, the image is of the
/// cell size and the atlas has room; for one that is cached, exactly when
/// the face holds a glyph with an outline for it.
pub proof fn lemma_add_glyph_success(
    pre: &SaikoFontSdf,
    post: &SaikoFontSdf,
    font: &Face,
    character: char,
    image: Option<&GlyphBitmap>,
    added: bool,
)
    requires
        SaikoFontSdf::add_glyph_step(pre, post, font, character, image, added),
    ensures
        added <==> spec_lookup_glyph(font, character) is Ok && (pre.spec_metrics().contains_key(
            character as u32,
        ) || (pre.image_fits(image) && pre.spec_has_room())),
{
}

/// The dirty flag follows the writes: a call of `add_glyph` never lowers
/// the flag, and leaves it raised whenever it changed a pixel, the metrics
/// or the cells.
pub proof fn lemma_dirty_follows_writes(
    pre: &SaikoFontSdf,
    post: &SaikoFontSdf,
    font: &Face,
    character: char,
    image: Option<&GlyphBitmap>,
    added: bool,
)
    requires
        SaikoFontSdf::add_glyph_step(pre, post, font, character, image, added),
    ensures
        pre.spec_is_dirty() ==> post.spec_is_dirty(),
        post.spec_pixels() != pre.spec_pixels() ==> post.spec_is_dirty(),
        post.spec_metrics() != pre.spec_metrics() ==> post.spec_is_dirty(),
        post.spec_cells() != pre.spec_cells() ==> post.spec_is_dirty(),
{
}

/// Capacity: an atlas of side `d` with glyphs of side `g` never holds more
/// cells than a grid of `g` by `g` fields has in it, `(d / g) * (d / g)`;
/// its cells never take more pixels than it has; and it never holds more
/// than `MAX_CELLS`.
pub proof fn lemma_atlas_capacity(atlas: &SaikoFontSdf)
    requires
        atlas.wf(),
        atlas.spec_glyph_size() > 0,
    ensures
        atlas.spec_cells().dom().len() <= (atlas.spec_atlas_dims() / atlas.spec_glyph_size()) * (
        atlas.spec_atlas_dims() / atlas.spec_glyph_size()),
        atlas.spec_cells().dom().len() * (atlas.spec_glyph_size() * atlas.spec_glyph_size())
            <= atlas.spec_atlas_dims() * atlas.spec_atlas_dims(),
        atlas.spec_cells().dom().len() <= MAX_CELLS,
{
    atlas.lemma_wf();
    lemma_grid_capacity(
        atlas.spec_cells(),
        atlas.spec_atlas_dims(),
        atlas.spec_atlas_dims(),
        atlas.spec_glyph_size(),
        atlas.spec_glyph_size(),
    );
    lemma_capacity(
        atlas.spec_cells(),
        atlas.spec_atlas_dims(),
        atlas.spec_atlas_dims(),
        atlas.spec_glyph_size(),
        atlas.spec_glyph_size(),
    );
}

/// The atlas of the usual size, 2048 pixels a side with glyphs of 40, never
/// holds more than 2601 cells.
pub proof fn lemma_default_capacity(atlas: &SaikoFontSdf)
    requires
        atlas.wf(),
        atlas.spec_atlas_dims() == FONT_ATLAS_DIMS,
        atlas.spec_glyph_size() == DEFAULT_GLYPH_SIZE,
    ensures
        atlas.spec_cells().dom().len() <= 2601,
{
    lemma_atlas_capacity(atlas);
    assert(2048int / 40int == 51);
}

/// Exhaustion: once an atlas holds as many cells as a grid of its glyph
/// size has fields, a call of `add_glyph` for a new character returns
/// `false` and changes nothing. At a side of 2048 and a glyph size of 40
/// that is at 2601 cells.
pub proof fn lemma_full_atlas_rejects(
    pre: &SaikoFontSdf,
    post: &SaikoFontSdf,
    font: &Face,
    character: char,
    image: Option<&GlyphBitmap>,
    added: bool,
)
    requires
        pre.wf(),
        SaikoFontSdf::add_glyph_step(pre, post, font, character, image, added),
        !pre.spec_metrics().contains_key(character as u32),
        pre.spec_glyph_size() > 0 ==> pre.spec_cells().dom().len() >= (pre.spec_atlas_dims()
            / pre.spec_glyph_size()) * (pre.spec_atlas_dims() / pre.spec_glyph_size()),
    ensures
        !added,
        post.same_state(pre),
{
    if added {
        lemma_added_glyph_is_dirty(pre, post, font, character, image, added);
        lemma_atlas_capacity(post);
    }
}

/// The space in a metrics map: it has no extent and no cell, and its
/// horizontal advance is not zero.
pub proof fn lemma_space_metrics(atlas: &SaikoFontSdf, characters: Seq<char>)
    requires
        characters.contains(' '),
    ensures
        atlas.spec_metrics_map(characters).contains_key(SPACE_CODE),
        atlas.spec_metrics_map(characters)[SPACE_CODE] == GlyphMetrics::spec_space(
            SPACE_ADVANCE_TENTHS,
            10,
        ),
        atlas.spec_metrics_map(characters)[SPACE_CODE].width == 0,
        atlas.spec_metrics_map(characters)[SPACE_CODE].height == 0,
        atlas.spec_metrics_map(characters)[SPACE_CODE].h_advance != 0,
        atlas.spec_metrics_map(characters)[SPACE_CODE].allocation is None,
{
    let i = choose|i: int| 0 <= i < characters.len() && characters[i] == ' ';
    assert(SaikoFontSdf::spec_codes(characters)[i] == SPACE_CODE);
}

/// No overlap in the atlas: the cells of two different cached characters
/// are different cells, lie inside the atlas and share no pixel.
pub proof fn lemma_glyph_cells_disjoint(atlas: &SaikoFontSdf, a: u32, b: u32)
    requires
        atlas.wf(),
        atlas.spec_metrics().contains_key(a),
        atlas.spec_metrics().contains_key(b),
        a != b,
    ensures
        atlas.spec_metrics()[a].allocation is Some,
        atlas.spec_metrics()[b].allocation is Some,
        atlas.spec_metrics()[a].allocation->0.id != atlas.spec_metrics()[b].allocation->0.id,
        atlas.spec_metrics()[a].allocation->0.rectangle.inside(
            atlas.spec_atlas_dims(),
            atlas.spec_atlas_dims(),
        ),
        !atlas.spec_metrics()[a].allocation->0.rectangle.overlaps(
            atlas.spec_metrics()[b].allocation->0.rectangle,
        ),
{
    atlas.lemma_wf();
    atlas.lemma_distinct_cells(a, b);
}

} // verus!
