//! Verified core of a planetary-imaging toolkit: two-dimensional raster
//! arithmetic, boolean masks, calibration enums, filename and format
//! handling, and the search routines used by the inpainting pass.
//!
//! Floating-point pixel math and every operation that touches the
//! filesystem live outside the verified library.
use vstd::prelude::*;

pub mod binfilereader;
pub mod camera;
pub mod util;
pub mod color;
pub mod debayer;
pub mod enums;
pub mod inpaint;
pub mod output;
pub mod path;

verus! {

broadcast use vstd::slice::axiom_spec_len;

/// Row-major linear index of the cell `(x, y)` in a grid `width` wide.
pub open spec fn grid_index(width: int, x: int, y: int) -> int {
    y * width + x
}

/// A cell inside the grid has a linear index inside the allocation.
pub proof fn lemma_grid_index_bound(width: int, x: int, y: int, height: int)
    requires
        0 <= x < width,
        0 <= y < height,
    ensures
        0 <= grid_index(width, x, y) < height * width,
{
    assert(0 <= y * width + x < height * width) by (nonlinear_arith)
        requires
            0 <= x < width,
            0 <= y < height,
    ;
}

/// Copies a centered `to_width x to_height` window out of a row-major
/// `from_width x from_height` array.
pub fn center_crop_2d<T: Copy>(
    from_array: &[T],
    from_width: usize,
    from_height: usize,
    to_width: usize,
    to_height: usize,
) -> (new_arr: Vec<T>)
    requires
        to_width <= from_width,
        to_height <= from_height,
        from_array@.len() == from_width * from_height,
    ensures
        new_arr@.len() == to_width * to_height,
        forall|y: int, x: int|
            0 <= y < to_height && 0 <= x < to_width ==> new_arr@[grid_index(to_width as int, x, y)]
                == from_array@[grid_index(
                from_width as int,
                (from_width - to_width) / 2 + x,
                (from_height - to_height) / 2 + y,
            )],
{
    proof {
        vstd::slice::axiom_spec_len(from_array);
        assert(to_width * to_height <= from_width * from_height) by (nonlinear_arith)
            requires
                to_width <= from_width,
                to_height <= from_height,
        ;
    }
    let mut new_arr: Vec<T> = Vec::with_capacity(to_width * to_height);
    let mut y: usize = 0;
    while y < to_height
        invariant
            y <= to_height,
            to_width <= from_width,
            to_height <= from_height,
            from_array@.len() == from_width * from_height,
            new_arr@.len() == y * to_width,
            forall|yy: int, xx: int|
                0 <= yy < y && 0 <= xx < to_width ==> new_arr@[grid_index(to_width as int, xx, yy)]
                    == from_array@[grid_index(
                    from_width as int,
                    (from_width - to_width) / 2 + xx,
                    (from_height - to_height) / 2 + yy,
                )],
        decreases to_height - y,
    {
        let mut x: usize = 0;
        while x < to_width
            invariant
                x <= to_width,
                y < to_height,
                to_width <= from_width,
                to_height <= from_height,
                from_array@.len() == from_width * from_height,
                new_arr@.len() == y * to_width + x,
                forall|yy: int, xx: int|
                    0 <= yy < y && 0 <= xx < to_width ==> new_arr@[grid_index(
                        to_width as int,
                        xx,
                        yy,
                    )] == from_array@[grid_index(
                        from_width as int,
                        (from_width - to_width) / 2 + xx,
                        (from_height - to_height) / 2 + yy,
                    )],
                forall|xx: int|
                    0 <= xx < x ==> new_arr@[grid_index(to_width as int, xx, y as int)]
                        == from_array@[grid_index(
                        from_width as int,
                        (from_width - to_width) / 2 + xx,
                        (from_height - to_height) / 2 + y,
                    )],
            decreases to_width - x,
        {
            let from_x: usize = ((from_width - to_width) / 2) + x;
            let from_y: usize = ((from_height - to_height) / 2) + y;
            proof {
                vstd::slice::axiom_spec_len(from_array);
                lemma_grid_index_bound(
                    from_width as int,
                    from_x as int,
                    from_y as int,
                    from_height as int,
                );
                assert(from_height * from_width == from_width * from_height) by (nonlinear_arith);
            }
            let from_idx: usize = from_y * from_width + from_x;
            new_arr.push(*vstd::slice::slice_index_get(from_array, from_idx));
            proof {
                assert forall|yy: int, xx: int|
                    0 <= yy < y && 0 <= xx < to_width implies 0 <= #[trigger] grid_index(
                    to_width as int,
                    xx,
                    yy,
                ) < y * to_width by {
                    lemma_grid_index_bound(to_width as int, xx, yy, y as int);
                }
            }
            x += 1;
        }
        proof {
            assert(y * to_width + to_width == (y + 1) * to_width) by (nonlinear_arith);
        }
        y += 1;
    }
    proof {
        assert(to_height * to_width == to_width * to_height) by (nonlinear_arith);
    }
    new_arr
}

/// Copies the `to_width x to_height` window whose upper-left corner is
/// `(left_x, top_y)` out of a row-major `from_width x from_height` array.
pub fn crop_2d<T: Copy>(
    from_array: &[T],
    from_width: usize,
    from_height: usize,
    left_x: usize,
    top_y: usize,
    to_width: usize,
    to_height: usize,
) -> (new_arr: Vec<T>)
    requires
        left_x + to_width <= from_width,
        top_y + to_height <= from_height,
        from_array@.len() == from_width * from_height,
    ensures
        new_arr@.len() == to_width * to_height,
        forall|y: int, x: int|
            0 <= y < to_height && 0 <= x < to_width ==> new_arr@[grid_index(to_width as int, x, y)]
                == from_array@[grid_index(from_width as int, left_x + x, top_y + y)],
{
    proof {
        vstd::slice::axiom_spec_len(from_array);
        assert(to_width * to_height <= from_width * from_height) by (nonlinear_arith)
            requires
                to_width <= from_width,
                to_height <= from_height,
        ;
    }
    let mut new_arr: Vec<T> = Vec::with_capacity(to_width * to_height);
    let mut y: usize = 0;
    while y < to_height
        invariant
            y <= to_height,
            left_x + to_width <= from_width,
            top_y + to_height <= from_height,
            from_array@.len() == from_width * from_height,
            new_arr@.len() == y * to_width,
            forall|yy: int, xx: int|
                0 <= yy < y && 0 <= xx < to_width ==> new_arr@[grid_index(to_width as int, xx, yy)]
                    == from_array@[grid_index(from_width as int, left_x + xx, top_y + yy)],
        decreases to_height - y,
    {
        let mut x: usize = 0;
        while x < to_width
            invariant
                x <= to_width,
                y < to_height,
                left_x + to_width <= from_width,
                top_y + to_height <= from_height,
                from_array@.len() == from_width * from_height,
                new_arr@.len() == y * to_width + x,
                forall|yy: int, xx: int|
                    0 <= yy < y && 0 <= xx < to_width ==> new_arr@[grid_index(
                        to_width as int,
                        xx,
                        yy,
                    )] == from_array@[grid_index(from_width as int, left_x + xx, top_y + yy)],
                forall|xx: int|
                    0 <= xx < x ==> new_arr@[grid_index(to_width as int, xx, y as int)]
                        == from_array@[grid_index(from_width as int, left_x + xx, top_y + y)],
            decreases to_width - x,
        {
            proof {
                vstd::slice::axiom_spec_len(from_array);
                lemma_grid_index_bound(
                    from_width as int,
                    left_x + x,
                    top_y + y,
                    from_height as int,
                );
                assert(from_height * from_width == from_width * from_height) by (nonlinear_arith);
            }
            let from_idx: usize = (top_y + y) * from_width + (left_x + x);
            new_arr.push(*vstd::slice::slice_index_get(from_array, from_idx));
            proof {
                assert forall|yy: int, xx: int|
                    0 <= yy < y && 0 <= xx < to_width implies 0 <= #[trigger] grid_index(
                    to_width as int,
                    xx,
                    yy,
                ) < y * to_width by {
                    lemma_grid_index_bound(to_width as int, xx, yy, y as int);
                }
            }
            x += 1;
        }
        proof {
            assert(y * to_width + to_width == (y + 1) * to_width) by (nonlinear_arith);
        }
        y += 1;
    }
    proof {
        assert(to_height * to_width == to_width * to_height) by (nonlinear_arith);
    }
    new_arr
}

/// The single window cell at offset `(dx, dy)` from `(x, y)`: the grid value
/// when the shifted position is inside the grid, nothing when it falls off.
pub open spec fn window_cell<T>(
    grid: Seq<T>,
    width: int,
    height: int,
    x: int,
    y: int,
    dx: int,
    dy: int,
) -> Seq<T> {
    if 0 <= x + dx < width && 0 <= y + dy < height {
        seq![grid[grid_index(width, x + dx, y + dy)]]
    } else {
        Seq::empty()
    }
}

/// One window row: the in-grid cells at offsets `dx_from <= dx < dx_to`.
pub open spec fn window_row<T>(
    grid: Seq<T>,
    width: int,
    height: int,
    x: int,
    y: int,
    dy: int,
    dx_from: int,
    dx_to: int,
) -> Seq<T>
    decreases dx_to - dx_from,
{
    if dx_from >= dx_to {
        Seq::empty()
    } else {
        window_cell(grid, width, height, x, y, dx_from, dy) + window_row(
            grid,
            width,
            height,
            x,
            y,
            dy,
            dx_from + 1,
            dx_to,
        )
    }
}

/// The whole clipped window: rows `dy_from <= dy < dy_to`, each over the
/// column offsets `dx_from <= dx < dx_to`.
pub open spec fn window_cells<T>(
    grid: Seq<T>,
    width: int,
    height: int,
    x: int,
    y: int,
    dy_from: int,
    dy_to: int,
    dx_from: int,
    dx_to: int,
) -> Seq<T>
    decreases dy_to - dy_from,
{
    if dy_from >= dy_to {
        Seq::empty()
    } else {
        window_row(grid, width, height, x, y, dy_from, dx_from, dx_to) + window_cells(
            grid,
            width,
            height,
            x,
            y,
            dy_from + 1,
            dy_to,
            dx_from,
            dx_to,
        )
    }
}

proof fn lemma_window_row_snoc<T>(
    grid: Seq<T>,
    width: int,
    height: int,
    x: int,
    y: int,
    dy: int,
    dx_from: int,
    dx_to: int,
)
    requires
        dx_from <= dx_to,
    ensures
        window_row(grid, width, height, x, y, dy, dx_from, dx_to + 1) == window_row(
            grid,
            width,
            height,
            x,
            y,
            dy,
            dx_from,
            dx_to,
        ) + window_cell(grid, width, height, x, y, dx_to, dy),
    decreases dx_to - dx_from,
{
    if dx_from == dx_to {
        assert(window_row(grid, width, height, x, y, dy, dx_from, dx_to) =~= Seq::empty());
        assert(window_row(grid, width, height, x, y, dy, dx_from + 1, dx_to + 1) =~= Seq::empty());
        assert(window_row(grid, width, height, x, y, dy, dx_from, dx_to + 1) =~= window_cell(
            grid,
            width,
            height,
            x,
            y,
            dx_from,
            dy,
        ) + Seq::empty());
        assert(window_row(grid, width, height, x, y, dy, dx_from, dx_to + 1) =~= window_row(
            grid,
            width,
            height,
            x,
            y,
            dy,
            dx_from,
            dx_to,
        ) + window_cell(grid, width, height, x, y, dx_to, dy));
    } else {
        lemma_window_row_snoc(grid, width, height, x, y, dy, dx_from + 1, dx_to);
        assert(window_row(grid, width, height, x, y, dy, dx_from, dx_to + 1) =~= window_row(
            grid,
            width,
            height,
            x,
            y,
            dy,
            dx_from,
            dx_to,
        ) + window_cell(grid, width, height, x, y, dx_to, dy));
    }
}

proof fn lemma_window_cells_snoc<T>(
    grid: Seq<T>,
    width: int,
    height: int,
    x: int,
    y: int,
    dy_from: int,
    dy_to: int,
    dx_from: int,
    dx_to: int,
)
    requires
        dy_from <= dy_to,
    ensures
        window_cells(grid, width, height, x, y, dy_from, dy_to + 1, dx_from, dx_to)
            == window_cells(grid, width, height, x, y, dy_from, dy_to, dx_from, dx_to)
            + window_row(grid, width, height, x, y, dy_to, dx_from, dx_to),
    decreases dy_to - dy_from,
{
    if dy_from == dy_to {
        assert(window_cells(grid, width, height, x, y, dy_from, dy_to, dx_from, dx_to)
            =~= Seq::empty());
        assert(window_cells(grid, width, height, x, y, dy_from + 1, dy_to + 1, dx_from, dx_to)
            =~= Seq::empty());
        assert(window_cells(grid, width, height, x, y, dy_from, dy_to + 1, dx_from, dx_to)
            =~= window_cells(grid, width, height, x, y, dy_from, dy_to, dx_from, dx_to)
            + window_row(grid, width, height, x, y, dy_to, dx_from, dx_to));
    } else {
        lemma_window_cells_snoc(grid, width, height, x, y, dy_from + 1, dy_to, dx_from, dx_to);
        assert(window_cells(grid, width, height, x, y, dy_from, dy_to + 1, dx_from, dx_to)
            =~= window_cells(grid, width, height, x, y, dy_from, dy_to, dx_from, dx_to)
            + window_row(grid, width, height, x, y, dy_to, dx_from, dx_to));
    }
}

/// Collects, in row-major order, the values of a square window of side
/// `window_size` centered on `(x, y)`, dropping the cells that fall outside
/// the `width_2d x height_2d` grid.
pub fn isolate_window_2d<T: Copy>(
    from_array: &[T],
    width_2d: usize,
    height_2d: usize,
    window_size: usize,
    x: usize,
    y: usize,
) -> (v: Vec<T>)
    requires
        x < width_2d,
        y < height_2d,
        width_2d + window_size < i32::MAX,
        height_2d + window_size < i32::MAX,
        width_2d * height_2d <= i32::MAX,
        window_size * window_size <= usize::MAX,
        from_array@.len() == width_2d * height_2d,
    ensures
        v@ == window_cells(
            from_array@,
            width_2d as int,
            height_2d as int,
            x as int,
            y as int,
            -((window_size / 2) as int),
            (window_size / 2) as int + 1,
            -((window_size / 2) as int),
            (window_size / 2) as int + 1,
        ),
{
    let ghost gw = width_2d as int;
    let ghost gh = height_2d as int;
    let ghost gx = x as int;
    let ghost gy = y as int;
    let mut v: Vec<T> = Vec::with_capacity(window_size * window_size);
    let start: i32 = -((window_size / 2) as i32);
    let end: i32 = (window_size / 2) as i32 + 1;
    let mut dy: i32 = start;
    while dy < end
        invariant
            start <= dy <= end,
            start == -((window_size / 2) as int),
            end == (window_size / 2) as int + 1,
            x < width_2d,
            y < height_2d,
            width_2d + window_size < i32::MAX,
            height_2d + window_size < i32::MAX,
            width_2d * height_2d <= i32::MAX,
            from_array@.len() == width_2d * height_2d,
            gw == width_2d as int && gh == height_2d as int && gx == x as int && gy == y as int,
            v@ == window_cells(
                from_array@,
                gw,
                gh,
                gx,
                gy,
                start as int,
                dy as int,
                start as int,
                end as int,
            ),
        decreases end - dy,
    {
        let mut dx: i32 = start;
        while dx < end
            invariant
                start <= dx <= end,
                start <= dy < end,
                start == -((window_size / 2) as int),
                end == (window_size / 2) as int + 1,
                x < width_2d,
                y < height_2d,
                width_2d + window_size < i32::MAX,
                height_2d + window_size < i32::MAX,
                width_2d * height_2d <= i32::MAX,
                from_array@.len() == width_2d * height_2d,
                gw == width_2d as int && gh == height_2d as int && gx == x as int && gy == y
                    as int,
                v@ == window_cells(
                    from_array@,
                    gw,
                    gh,
                    gx,
                    gy,
                    start as int,
                    dy as int,
                    start as int,
                    end as int,
                ) + window_row(from_array@, gw, gh, gx, gy, dy as int, start as int, dx as int),
            decreases end - dx,
        {
            let get_x: i32 = x as i32 + dx;
            let get_y: i32 = y as i32 + dy;
            if get_x >= 0 && get_x < width_2d as i32 && get_y >= 0 && get_y < height_2d as i32 {
                proof {
                    vstd::slice::axiom_spec_len(from_array);
                    lemma_grid_index_bound(gw, get_x as int, get_y as int, gh);
                    assert(gh * gw == gw * gh) by (nonlinear_arith);
                }
                let idx: i32 = get_y * width_2d as i32 + get_x;
                v.push(*vstd::slice::slice_index_get(from_array, idx as usize));
            }
            proof {
                lemma_window_row_snoc(
                    from_array@,
                    gw,
                    gh,
                    gx,
                    gy,
                    dy as int,
                    start as int,
                    dx as int,
                );
            }
            dx += 1;
        }
        proof {
            lemma_window_cells_snoc(
                from_array@,
                gw,
                gh,
                gx,
                gy,
                start as int,
                dy as int,
                start as int,
                end as int,
            );
        }
        dy += 1;
    }
    v
}

/// A row-major grid of boolean flags, one per pixel.
pub type MaskVec = Vec<bool>;

/// Boolean pixel masks addressed by two-dimensional coordinates.
pub trait Mask: View<V = Seq<bool>> + Sized {
    /// A mask of `capacity` cells, all set.
    fn new_mask(capacity: usize) -> (r: MaskVec)
        ensures
            r@.len() == capacity,
            forall|i: int| 0 <= i < capacity ==> r@[i] == true,
    ;

    /// A mask of `capacity` cells, all holding `fill_value`.
    fn fill_mask(capacity: usize, fill_value: bool) -> (r: MaskVec)
        ensures
            r@.len() == capacity,
            forall|i: int| 0 <= i < capacity ==> r@[i] == fill_value,
    ;

    /// The flag at `(x, y)` of a `width_2d x height_2d` mask.
    fn get_2d(&self, width_2d: usize, height_2d: usize, x: usize, y: usize) -> (r: bool)
        requires
            x < width_2d,
            y < height_2d,
            grid_index(width_2d as int, x as int, y as int) < self@.len(),
        ensures
            r == self@[grid_index(width_2d as int, x as int, y as int)],
    ;

    /// Stores `value` at `(x, y)` of a `width_2d x height_2d` mask.
    fn put_2d(&mut self, width_2d: usize, height_2d: usize, x: usize, y: usize, value: bool)
        requires
            x < width_2d,
            y < height_2d,
            grid_index(width_2d as int, x as int, y as int) < old(self)@.len(),
        ensures
            final(self)@ == old(self)@.update(
                grid_index(width_2d as int, x as int, y as int),
                value,
            ),
    ;

    /// Sets every cell.
    fn clear_mask(&mut self)
        ensures
            final(self)@.len() == old(self)@.len(),
            forall|i: int| 0 <= i < final(self)@.len() ==> final(self)@[i] == true,
    ;
}

impl Mask for MaskVec {
    fn new_mask(capacity: usize) -> (r: MaskVec) {
        MaskVec::fill_mask(capacity, true)
    }

    fn fill_mask(capacity: usize, fill_value: bool) -> (r: MaskVec) {
        let mut v: MaskVec = Vec::with_capacity(capacity);
        let mut i: usize = 0;
        while i < capacity
            invariant
                i <= capacity,
                v@.len() == i,
                forall|j: int| 0 <= j < i ==> v@[j] == fill_value,
            decreases capacity - i,
        {
            v.push(fill_value);
            i += 1;
        }
        v
    }

    fn get_2d(&self, width_2d: usize, height_2d: usize, x: usize, y: usize) -> (r: bool) {
        proof {
            vstd::std_specs::vec::axiom_spec_len(self);
        }
        let idx: usize = y * width_2d + x;
        self[idx]
    }

    fn put_2d(&mut self, width_2d: usize, height_2d: usize, x: usize, y: usize, value: bool) {
        proof {
            vstd::std_specs::vec::axiom_spec_len(&*self);
        }
        let idx: usize = y * width_2d + x;
        self[idx] = value;
    }

    fn clear_mask(&mut self) {
        let n: usize = self.len();
        let mut i: usize = 0;
        while i < n
            invariant
                i <= n,
                self@.len() == n,
                forall|j: int| 0 <= j < i ==> self@[j] == true,
            decreases n - i,
        {
            self[i] = true;
            i += 1;
        }
    }
}

} // verus!
