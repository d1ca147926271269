//! How many cells an atlas can hold.
//!
//! Cells that do not overlap cover different pixels, so together they cannot
//! cover more pixels than the atlas has. And each cell with room for a `w`
//! by `h` image covers one point of the grid whose lines lie `w` and `h`
//! apart, which it shares with no other cell. Both bound the number of
//! cells of a given size, whatever the packing.

use vstd::prelude::*;
use vstd::arithmetic::div_mod::lemma_fundamental_div_mod;
use vstd::relations::injective_on;
use vstd::set_lib::lemma_int_range;
use vstd::set_lib::lemma_len_subset;
use vstd::set_lib::lemma_map_size;
use vstd::set_lib::lemma_set_disjoint_lens;
use vstd::set_lib::set_int_range;
use crate::allocator::cells_disjoint;
use crate::allocator::cells_inside;
use crate::bitmap::lemma_index_in_grid;
use crate::geometry::CellRect;

verus! {

/// The indices of the pixels that `rect` covers, in a bitmap that is
/// `width` pixels wide and stored row by row.
pub open spec fn spec_pixel_indices(rect: CellRect, width: int) -> Set<int> {
    Set::new(|i: int| 0 <= i && rect.covers(i % width, i / width))
}

/// The indices of the pixels that any of `cells` covers.
pub open spec fn spec_covered(cells: Map<u32, CellRect>, width: int) -> Set<int> {
    Set::new(
        |i: int|
            exists|id: u32|
                cells.contains_key(id) && #[trigger] spec_pixel_indices(cells[id], width).contains(
                    i,
                ),
    )
}

/// Every cell has room for a `w` by `h` image.
pub open spec fn cells_hold(cells: Map<u32, CellRect>, w: int, h: int) -> bool {
    forall|id: u32| #[trigger] cells.contains_key(id) ==> cells[id].holds(w, h)
}

/// The `k`-th pixel of the `w` pixels wide window at the minimum corner of
/// `rect`, as an index into a bitmap `width` wide.
pub open spec fn spec_window_index(rect: CellRect, width: int, w: int, k: int) -> int {
    (rect.min_y + k / w) * width + (rect.min_x + k % w)
}

/// A position below `w * h` lies in row `k / w` and column `k % w` of a
/// `w` wide window, and the two give the position back.
proof fn lemma_window_position(k: int, w: int, h: int)
    requires
        0 < w,
        0 <= k < w * h,
    ensures
        0 <= k % w < w,
        0 <= k / w < h,
        k == w * (k / w) + k % w,
{
    lemma_fundamental_div_mod(k, w);
    let q = k / w;
    assert(0 <= q) by (nonlinear_arith)
        requires
            k == w * q + k % w,
            0 <= k % w < w,
            0 <= k,
            0 < w,
    ;
    assert(q < h) by (nonlinear_arith)
        requires
            k == w * q + k % w,
            0 <= k % w,
            k < w * h,
            0 < w,
    ;
}

/// A cell inside the atlas covers pixels of the atlas only, and at least as
/// many as the image it has room for.
pub proof fn lemma_cell_pixels(rect: CellRect, width: int, height: int, w: int, h: int)
    requires
        0 < width,
        0 < height,
        0 < w,
        0 < h,
        rect.inside(width, height),
        rect.holds(w, h),
    ensures
        spec_pixel_indices(rect, width).subset_of(set_int_range(0, width * height)),
        spec_pixel_indices(rect, width).finite(),
        spec_pixel_indices(rect, width).len() >= w * h,
{
    let pixels = spec_pixel_indices(rect, width);
    let all = set_int_range(0, width * height);
    assert(0 <= width * height) by (nonlinear_arith)
        requires
            0 < width,
            0 < height,
    ;
    lemma_int_range(0, width * height);
    assert forall|i: int| pixels.contains(i) implies all.contains(i) by {
        lemma_fundamental_div_mod(i, width);
        let row = i / width;
        assert(width * row + width <= width * height) by (nonlinear_arith)
            requires
                row + 1 <= height,
                0 < width,
        ;
    }
    lemma_len_subset(pixels, all);
    assert(0 <= w * h) by (nonlinear_arith)
        requires
            0 < w,
            0 < h,
    ;
    let window = set_int_range(0, w * h);
    lemma_int_range(0, w * h);
    let place = |k: int| spec_window_index(rect, width, w, k);
    let image = window.map(place);
    assert forall|k: int| window.contains(k) implies {
        &&& place(k) / width == rect.min_y + k / w
        &&& place(k) % width == rect.min_x + k % w
        &&& pixels.contains(place(k))
    } by {
        lemma_window_position(k, w, h);
        lemma_index_in_grid(rect.min_x + k % w, rect.min_y + k / w, width, height);
    }
    assert(injective_on(place, window)) by {
        assert forall|k1: int, k2: int|
            window.contains(k1) && window.contains(k2) && #[trigger] place(k1) == #[trigger] place(
                k2,
            ) implies k1 == k2 by {
            lemma_window_position(k1, w, h);
            lemma_window_position(k2, w, h);
            assert(place(k1) / width == rect.min_y + k1 / w);
            assert(place(k2) / width == rect.min_y + k2 / w);
            assert(place(k1) % width == rect.min_x + k1 % w);
            assert(place(k2) % width == rect.min_x + k2 % w);
        }
    }
    lemma_map_size(window, image, place);
    assert forall|i: int| image.contains(i) implies pixels.contains(i) by {
        let k = choose|k: int| window.contains(k) && i == place(k);
        assert(pixels.contains(place(k)));
    }
    lemma_len_subset(image, pixels);
}

/// Cells that do not overlap cover different pixels.
pub proof fn lemma_disjoint_cells_share_no_pixel(a: CellRect, b: CellRect, width: int)
    requires
        !a.overlaps(b),
    ensures
        spec_pixel_indices(a, width).disjoint(spec_pixel_indices(b, width)),
{
}

/// Disjoint cells inside the atlas, each with room for a `w` by `h` image,
/// cover at least `w * h` pixels of the atlas each.
pub proof fn lemma_covered_pixels(
    cells: Map<u32, CellRect>,
    width: int,
    height: int,
    w: int,
    h: int,
)
    requires
        0 < width,
        0 < height,
        0 < w,
        0 < h,
        cells.dom().finite(),
        cells_inside(cells, width, height),
        cells_disjoint(cells),
        cells_hold(cells, w, h),
    ensures
        spec_covered(cells, width).subset_of(set_int_range(0, width * height)),
        spec_covered(cells, width).finite(),
        cells.dom().len() * (w * h) <= spec_covered(cells, width).len(),
    decreases cells.dom().len(),
{
    let covered = spec_covered(cells, width);
    let all = set_int_range(0, width * height);
    assert(0 <= width * height) by (nonlinear_arith)
        requires
            0 < width,
            0 < height,
    ;
    lemma_int_range(0, width * height);
    if cells.dom().len() == 0 {
        assert(cells.dom() =~= Set::<u32>::empty());
        assert(covered =~= Set::<int>::empty());
        assert(cells.dom().len() * (w * h) == 0) by (nonlinear_arith)
            requires
                cells.dom().len() == 0,
        ;
    } else {
        let id = cells.dom().choose();
        let rest = cells.remove(id);
        let own = spec_pixel_indices(cells[id], width);
        let others = spec_covered(rest, width);
        assert(cells.contains_key(id));
        assert(rest.dom() =~= cells.dom().remove(id));
        assert forall|a: u32, b: u32|
            #![trigger rest.contains_key(a), rest.contains_key(b)]
            rest.contains_key(a) && rest.contains_key(b) && a != b implies !rest[a].overlaps(
            rest[b],
        ) by {
            assert(cells.contains_key(a) && cells.contains_key(b));
        }
        assert forall|other: u32| #[trigger] rest.contains_key(other) implies rest[other].holds(
            w,
            h,
        ) && rest[other].is_nonempty() && rest[other].inside(width, height) by {
            assert(cells.contains_key(other));
        }
        lemma_covered_pixels(rest, width, height, w, h);
        lemma_cell_pixels(cells[id], width, height, w, h);
        assert forall|i: int| covered.contains(i) <==> (own + others).contains(i) by {
            if covered.contains(i) {
                let holder = choose|holder: u32|
                    cells.contains_key(holder) && #[trigger] spec_pixel_indices(
                        cells[holder],
                        width,
                    ).contains(i);
                if holder != id {
                    assert(rest.contains_key(holder));
                    assert(spec_pixel_indices(rest[holder], width).contains(i));
                }
            }
            if others.contains(i) {
                let holder = choose|holder: u32|
                    rest.contains_key(holder) && #[trigger] spec_pixel_indices(
                        rest[holder],
                        width,
                    ).contains(i);
                assert(cells.contains_key(holder));
                assert(spec_pixel_indices(cells[holder], width).contains(i));
            }
        }
        assert(covered =~= own + others);
        assert(own.disjoint(others)) by {
            assert forall|i: int| own.contains(i) implies !others.contains(i) by {
                if others.contains(i) {
                    let holder = choose|holder: u32|
                        rest.contains_key(holder) && #[trigger] spec_pixel_indices(
                            rest[holder],
                            width,
                        ).contains(i);
                    assert(cells.contains_key(holder) && cells.contains_key(id) && holder != id);
                    lemma_disjoint_cells_share_no_pixel(cells[holder], cells[id], width);
                    assert(spec_pixel_indices(cells[holder], width).contains(i));
                }
            }
        }
        lemma_set_disjoint_lens(own, others);
        let n = rest.dom().len();
        assert(cells.dom().len() == n + 1);
        assert((n + 1) * (w * h) == n * (w * h) + w * h) by (nonlinear_arith);
        assert forall|i: int| covered.contains(i) implies all.contains(i) by {
            if own.contains(i) {
            } else {
                assert(others.contains(i));
            }
        }
        lemma_len_subset(covered, all);
    }
}

/// Capacity: disjoint cells inside a `width` by `height` atlas, each with
/// room for a `w` by `h` image, are at most `width * height / (w * h)`.
pub proof fn lemma_capacity(cells: Map<u32, CellRect>, width: int, height: int, w: int, h: int)
    requires
        0 < width,
        0 < height,
        0 < w,
        0 < h,
        cells.dom().finite(),
        cells_inside(cells, width, height),
        cells_disjoint(cells),
        cells_hold(cells, w, h),
    ensures
        cells.dom().len() * (w * h) <= width * height,
{
    assert(0 <= width * height) by (nonlinear_arith)
        requires
            0 < width,
            0 < height,
    ;
    lemma_covered_pixels(cells, width, height, w, h);
    lemma_int_range(0, width * height);
    lemma_len_subset(spec_covered(cells, width), set_int_range(0, width * height));
}

/// The place of `rect` in a grid of `columns` columns whose fields are `w`
/// wide and `h` high: the field that holds its minimum corner, fields
/// counted row by row.
pub open spec fn spec_grid_slot(rect: CellRect, columns: int, w: int, h: int) -> int {
    (rect.min_y as int / h) * columns + rect.min_x as int / w
}

/// A cell inside the atlas with room for a `w` by `h` image has its minimum
/// corner in a field of the `width / w` by `height / h` grid, and covers the
/// last pixel of that field.
proof fn lemma_grid_field(rect: CellRect, width: int, height: int, w: int, h: int)
    requires
        0 < w,
        0 < h,
        rect.inside(width, height),
        rect.holds(w, h),
    ensures
        0 <= rect.min_x as int / w < width / w,
        0 <= rect.min_y as int / h < height / h,
        rect.covers(w * (rect.min_x as int / w) + w - 1, h * (rect.min_y as int / h) + h - 1),
{
    lemma_axis_field(rect.min_x as int, rect.max_x as int, width, w);
    lemma_axis_field(rect.min_y as int, rect.max_y as int, height, h);
}

/// Along one axis: an interval from `min` that is at least `g` long and
/// ends by `limit` starts in a field `min / g` below `limit / g`, and holds
/// the last point of that field.
proof fn lemma_axis_field(min: int, max: int, limit: int, g: int)
    requires
        0 < g,
        0 <= min,
        min + g <= max,
        max <= limit,
    ensures
        0 <= min / g < limit / g,
        min <= g * (min / g) + g - 1 < max,
{
    lemma_fundamental_div_mod(min, g);
    lemma_fundamental_div_mod(limit, g);
    let a = min / g;
    let m = limit / g;
    assert(0 <= a) by (nonlinear_arith)
        requires
            min == g * a + min % g,
            0 <= min % g < g,
            0 <= min,
            0 < g,
    ;
    assert(a < m) by (nonlinear_arith)
        requires
            min == g * a + min % g,
            limit == g * m + limit % g,
            0 <= min % g,
            limit % g < g,
            min + g <= limit,
            0 < g,
    ;
}

/// Grid capacity: disjoint cells inside a `width` by `height` atlas, each
/// with room for a `w` by `h` image, are at most `(width / w) * (height /
/// h)`: as many as the fields of the grid.
pub proof fn lemma_grid_capacity(
    cells: Map<u32, CellRect>,
    width: int,
    height: int,
    w: int,
    h: int,
)
    requires
        0 < width,
        0 < height,
        0 < w,
        0 < h,
        cells.dom().finite(),
        cells_inside(cells, width, height),
        cells_disjoint(cells),
        cells_hold(cells, w, h),
    ensures
        cells.dom().len() <= (width / w) * (height / h),
{
    let columns = width / w;
    let rows = height / h;
    lemma_fundamental_div_mod(width, w);
    lemma_fundamental_div_mod(height, h);
    assert(0 <= columns) by (nonlinear_arith)
        requires
            width == w * columns + width % w,
            width % w < w,
            0 < width,
            0 < w,
    ;
    assert(0 <= rows) by (nonlinear_arith)
        requires
            height == h * rows + height % h,
            height % h < h,
            0 < height,
            0 < h,
    ;
    assert(0 <= columns * rows) by (nonlinear_arith)
        requires
            0 <= columns,
            0 <= rows,
    ;
    let fields = set_int_range(0, columns * rows);
    lemma_int_range(0, columns * rows);
    let slot = |id: u32| spec_grid_slot(cells[id], columns, w, h);
    let taken = cells.dom().map(slot);
    assert forall|id: u32| cells.dom().contains(id) implies {
        &&& 0 <= cells[id].min_x as int / w < columns
        &&& 0 <= cells[id].min_y as int / h < rows
        &&& 0 <= #[trigger] slot(id) < columns * rows
        &&& slot(id) / columns == cells[id].min_y as int / h
        &&& slot(id) % columns == cells[id].min_x as int / w
    } by {
        assert(cells.contains_key(id));
        lemma_grid_field(cells[id], width, height, w, h);
        lemma_index_in_grid(
            cells[id].min_x as int / w,
            cells[id].min_y as int / h,
            columns,
            rows,
        );
        assert(columns * rows == rows * columns) by (nonlinear_arith);
    }
    assert(injective_on(slot, cells.dom())) by {
        assert forall|a: u32, b: u32|
            cells.dom().contains(a) && cells.dom().contains(b) && #[trigger] slot(a)
                == #[trigger] slot(b) implies a == b by {
            assert(cells.contains_key(a) && cells.contains_key(b));
            lemma_grid_field(cells[a], width, height, w, h);
            lemma_grid_field(cells[b], width, height, w, h);
            assert(cells[a].min_x as int / w == cells[b].min_x as int / w);
            assert(cells[a].min_y as int / h == cells[b].min_y as int / h);
            if a != b {
                assert(cells[a].overlaps(cells[b]));
            }
        }
    }
    lemma_map_size(cells.dom(), taken, slot);
    assert forall|i: int| taken.contains(i) implies fields.contains(i) by {
        let id = choose|id: u32| cells.dom().contains(id) && i == slot(id);
        assert(0 <= slot(id) < columns * rows);
    }
    lemma_len_subset(taken, fields);
}

} // verus!
