//! Search routines of the inpainting pass: counting usable neighbors,
//! scoring candidate cells, and finding where to start.
//!
//! The pass works on a boolean mask grid: a set cell still needs to be
//! filled, a clear cell holds good data. Predicting and writing the
//! replacement pixel values is floating-point work and lives outside the
//! verified library.
use vstd::prelude::*;

use crate::{grid_index, lemma_grid_index_bound, MaskVec};

verus! {

/// A cell of the mask grid together with its neighbor score.
#[derive(Debug, Clone, Copy)]
pub struct Point {
    pub x: usize,
    pub y: usize,
    pub score: u32,
}

/// The cell `(x, y)` lies inside the grid and holds good data.
pub open spec fn is_good_neighbor(mask: Seq<bool>, width: int, height: int, x: int, y: int) -> bool {
    0 <= x < width && 0 <= y < height && !mask[grid_index(width, x, y)]
}

/// One when the cell is a usable neighbor, zero otherwise.
pub open spec fn good_as_int(mask: Seq<bool>, width: int, height: int, x: int, y: int) -> int {
    if is_good_neighbor(mask, width, height, x, y) {
        1
    } else {
        0
    }
}

/// How many of the eight neighbors of `(x, y)` hold good data.
pub open spec fn spec_good_neighbors(mask: Seq<bool>, width: int, height: int, x: int, y: int) -> int {
    good_as_int(mask, width, height, x, y - 1) + good_as_int(mask, width, height, x - 1, y - 1)
        + good_as_int(mask, width, height, x - 1, y) + good_as_int(
        mask,
        width,
        height,
        x - 1,
        y + 1,
    ) + good_as_int(mask, width, height, x, y + 1) + good_as_int(
        mask,
        width,
        height,
        x + 1,
        y + 1,
    ) + good_as_int(mask, width, height, x + 1, y) + good_as_int(mask, width, height, x + 1, y - 1)
}

/// Whether the cell `(x, y)` lies inside the grid and holds good data.
fn is_good(mask: &MaskVec, width: usize, height: usize, x: i32, y: i32) -> (r: bool)
    requires
        width <= i32::MAX,
        height <= i32::MAX,
        mask@.len() == width * height,
    ensures
        r == is_good_neighbor(mask@, width as int, height as int, x as int, y as int),
{
    if x >= 0 && x < width as i32 && y >= 0 && y < height as i32 {
        proof {
            vstd::std_specs::vec::axiom_spec_len(mask);
            lemma_grid_index_bound(width as int, x as int, y as int, height as int);
            assert(height * width == width * height) by (nonlinear_arith);
        }
        let idx: usize = (y as usize) * width + (x as usize);
        !mask[idx]
    } else {
        false
    }
}

/// Counts the neighbors of `(x, y)` that hold good data.
pub fn get_num_good_neighbors(mask: &MaskVec, width: usize, height: usize, x: i32, y: i32) -> (s:
    u32)
    requires
        width <= i32::MAX,
        height <= i32::MAX,
        mask@.len() == width * height,
        0 <= x < width,
        0 <= y < height,
    ensures
        s == spec_good_neighbors(mask@, width as int, height as int, x as int, y as int),
{
    let t = is_good(mask, width, height, x, y - 1);
    let tl = is_good(mask, width, height, x - 1, y - 1);
    let l = is_good(mask, width, height, x - 1, y);
    let bl = is_good(mask, width, height, x - 1, y + 1);
    let b = is_good(mask, width, height, x, y + 1);
    let br = is_good(mask, width, height, x + 1, y + 1);
    let r = is_good(mask, width, height, x + 1, y);
    let tr = is_good(mask, width, height, x + 1, y - 1);

    let mut s: u32 = 0;
    s += if t {
        1
    } else {
        0
    };
    s += if tl {
        1
    } else {
        0
    };
    s += if l {
        1
    } else {
        0
    };
    s += if bl {
        1
    } else {
        0
    };
    s += if b {
        1
    } else {
        0
    };
    s += if br {
        1
    } else {
        0
    };
    s += if r {
        1
    } else {
        0
    };
    s += if tr {
        1
    } else {
        0
    };
    s
}

/// The candidate the cell `(x, y)` contributes: the cell with its score
/// when it lies inside the grid and still needs filling, nothing
/// otherwise.
pub open spec fn spec_point_at(mask: Seq<bool>, width: int, height: int, x: int, y: int) -> Option<
    Point,
> {
    if 0 <= x < width && 0 <= y < height && mask[grid_index(width, x, y)] {
        Some(
            Point {
                x: x as usize,
                y: y as usize,
                score: spec_good_neighbors(mask, width, height, x, y) as u32,
            },
        )
    } else {
        None
    }
}

/// Scores the cell `(x, y)`: its position and neighbor count when it lies
/// inside the grid and still needs filling.
pub fn get_point_and_score_at_xy(mask: &MaskVec, width: usize, height: usize, x: i32, y: i32) -> (r:
    Option<Point>)
    requires
        width <= i32::MAX,
        height <= i32::MAX,
        mask@.len() == width * height,
    ensures
        r == spec_point_at(mask@, width as int, height as int, x as int, y as int),
{
    if x < 0 || x >= width as i32 || y < 0 || y >= height as i32 {
        return None;
    }
    proof {
        vstd::std_specs::vec::axiom_spec_len(mask);
        lemma_grid_index_bound(width as int, x as int, y as int, height as int);
        assert(height * width == width * height) by (nonlinear_arith);
    }
    let idx: usize = (y as usize) * width + (x as usize);
    if !mask[idx] {
        return None;
    }
    let score: u32 = get_num_good_neighbors(mask, width, height, x, y);
    Some(Point { x: x as usize, y: y as usize, score })
}

/// The candidate with the higher score; `right` wins a tie, and stands in
/// when there is no `left`.
pub open spec fn spec_find_larger(left: Option<Point>, right: Point) -> Point {
    match left {
        Some(pt) => if pt.score > right.score {
            pt
        } else {
            right
        },
        None => right,
    }
}

/// Keeps the candidate with the higher score; `right` wins a tie.
pub fn find_larger(left: Option<Point>, right: &Point) -> (r: Point)
    ensures
        r == spec_find_larger(left, *right),
{
    match left {
        Some(pt) => {
            if pt.score > right.score {
                pt
            } else {
                right.clone()
            }
        },
        None => right.clone(),
    }
}

/// Folds one candidate into the best found so far.
pub open spec fn spec_pick(acc: Option<Point>, cand: Option<Point>) -> Option<Point> {
    match cand {
        Some(pt) => Some(spec_find_larger(acc, pt)),
        None => acc,
    }
}

/// The best-scored masked neighbor of `(x, y)`, taking the eight
/// neighbors clockwise from the top and letting a later candidate win
/// ties.
pub open spec fn spec_find_next_point(
    mask: Seq<bool>,
    width: int,
    height: int,
    x: int,
    y: int,
) -> Option<Point> {
    let acc1 = spec_pick(None, spec_point_at(mask, width, height, x, y - 1));
    let acc2 = spec_pick(acc1, spec_point_at(mask, width, height, x - 1, y - 1));
    let acc3 = spec_pick(acc2, spec_point_at(mask, width, height, x - 1, y));
    let acc4 = spec_pick(acc3, spec_point_at(mask, width, height, x - 1, y + 1));
    let acc5 = spec_pick(acc4, spec_point_at(mask, width, height, x, y + 1));
    let acc6 = spec_pick(acc5, spec_point_at(mask, width, height, x + 1, y + 1));
    let acc7 = spec_pick(acc6, spec_point_at(mask, width, height, x + 1, y));
    spec_pick(acc7, spec_point_at(mask, width, height, x + 1, y - 1))
}

/// Finds the masked neighbor of `(x, y)` with the most good neighbors of
/// its own: the next cell the inpainting pass should fill.
pub fn find_next_point(mask: &MaskVec, width: usize, height: usize, x: i32, y: i32) -> (r: Option<
    Point,
>)
    requires
        width <= i32::MAX,
        height <= i32::MAX,
        mask@.len() == width * height,
        0 <= x < width,
        0 <= y < height,
    ensures
        r == spec_find_next_point(mask@, width as int, height as int, x as int, y as int),
{
    let pts: [Option<Point>; 8] = [
        get_point_and_score_at_xy(mask, width, height, x, y - 1),
        get_point_and_score_at_xy(mask, width, height, x - 1, y - 1),
        get_point_and_score_at_xy(mask, width, height, x - 1, y),
        get_point_and_score_at_xy(mask, width, height, x - 1, y + 1),
        get_point_and_score_at_xy(mask, width, height, x, y + 1),
        get_point_and_score_at_xy(mask, width, height, x + 1, y + 1),
        get_point_and_score_at_xy(mask, width, height, x + 1, y),
        get_point_and_score_at_xy(mask, width, height, x + 1, y - 1),
    ];

    let mut largest_score: Option<Point> = None;
    let mut i: usize = 0;
    while i < 8
        invariant
            i <= 8,
            width <= i32::MAX,
            height <= i32::MAX,
            mask@.len() == width * height,
            0 <= x < width,
            0 <= y < height,
            forall|k: int|
                0 <= k < 8 ==> pts@[k] == spec_neighbor_candidate(
                    mask@,
                    width as int,
                    height as int,
                    x as int,
                    y as int,
                    k,
                ),
            largest_score == spec_pick_prefix(
                mask@,
                width as int,
                height as int,
                x as int,
                y as int,
                i as int,
            ),
        decreases 8 - i,
    {
        match &pts[i] {
            Some(pt) => {
                largest_score = Some(find_larger(largest_score, pt));
            },
            None => (),
        }
        i += 1;
    }
    proof {
        lemma_pick_prefix_is_find_next(
            mask@,
            width as int,
            height as int,
            x as int,
            y as int,
        );
    }
    largest_score
}

/// Folding all eight neighbor candidates in order gives the best next
/// point.
proof fn lemma_pick_prefix_is_find_next(mask: Seq<bool>, width: int, height: int, x: int, y: int)
    ensures
        spec_pick_prefix(mask, width, height, x, y, 8) == spec_find_next_point(
            mask,
            width,
            height,
            x,
            y,
        ),
{
    reveal_with_fuel(spec_pick_prefix, 9);
}

/// The fold of the first `k` neighbor candidates, in the order
/// `find_next_point` visits them.
pub open spec fn spec_pick_prefix(
    mask: Seq<bool>,
    width: int,
    height: int,
    x: int,
    y: int,
    k: int,
) -> Option<Point>
    decreases k,
{
    if k <= 0 {
        None
    } else {
        spec_pick(
            spec_pick_prefix(mask, width, height, x, y, k - 1),
            spec_neighbor_candidate(mask, width, height, x, y, k - 1),
        )
    }
}

/// The `k`-th neighbor candidate of `(x, y)`, clockwise from the top.
pub open spec fn spec_neighbor_candidate(
    mask: Seq<bool>,
    width: int,
    height: int,
    x: int,
    y: int,
    k: int,
) -> Option<Point> {
    if k == 0 {
        spec_point_at(mask, width, height, x, y - 1)
    } else if k == 1 {
        spec_point_at(mask, width, height, x - 1, y - 1)
    } else if k == 2 {
        spec_point_at(mask, width, height, x - 1, y)
    } else if k == 3 {
        spec_point_at(mask, width, height, x - 1, y + 1)
    } else if k == 4 {
        spec_point_at(mask, width, height, x, y + 1)
    } else if k == 5 {
        spec_point_at(mask, width, height, x + 1, y + 1)
    } else if k == 6 {
        spec_point_at(mask, width, height, x + 1, y)
    } else {
        spec_point_at(mask, width, height, x + 1, y - 1)
    }
}

/// The first cell, in row-major order, that still needs filling.
pub fn find_starting_point(mask: &MaskVec, width: usize, height: usize) -> (r: Option<Point>)
    requires
        mask@.len() == width * height,
    ensures
        (r is Some) <==> exists|i: int| 0 <= i < mask@.len() && mask@[i],
        r matches Some(p) ==> {
            &&& p.x < width
            &&& p.y < height
            &&& p.score == 0
            &&& mask@[grid_index(width as int, p.x as int, p.y as int)]
            &&& forall|j: int| 0 <= j < grid_index(width as int, p.x as int, p.y as int) ==> !mask@[j]
        },
{
    let mut y: usize = 0;
    while y < height
        invariant
            y <= height,
            mask@.len() == width * height,
            forall|j: int| 0 <= j < y * width ==> !mask@[j],
        decreases height - y,
    {
        let mut x: usize = 0;
        while x < width
            invariant
                x <= width,
                y < height,
                mask@.len() == width * height,
                forall|j: int| 0 <= j < y * width + x ==> !mask@[j],
            decreases width - x,
        {
            proof {
                vstd::std_specs::vec::axiom_spec_len(mask);
                lemma_grid_index_bound(width as int, x as int, y as int, height as int);
                assert(height * width == width * height) by (nonlinear_arith);
            }
            let idx: usize = y * width + x;
            if mask[idx] {
                return Some(Point { x, y, score: 0 });
            }
            x += 1;
        }
        proof {
            assert(y * width + width == (y + 1) * width) by (nonlinear_arith);
        }
        y += 1;
    }
    proof {
        assert(height * width == width * height) by (nonlinear_arith);
    }
    None
}

} // verus!
