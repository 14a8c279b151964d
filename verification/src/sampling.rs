//! Per-pixel addressing: which four stamp samples a working-grid coordinate
//! blends, and where each lives in its stamp's local frame.
//!
//! A coordinate's own coarse cell is `(x / stamp_size, y / stamp_size)`; the
//! blend also reads the cells one step back on each axis, so a coordinate is
//! addressable only when both indices are at least one and inside the cell
//! grid.  Within a stamp, the local coordinate is the offset from that
//! cell's origin, which always lands inside the stamp's doubled side.

use vstd::prelude::*;
use vstd::arithmetic::div_mod::{
    lemma_div_is_ordered,
    lemma_div_multiples_vanish,
    lemma_fundamental_div_mod_converse,
};
use crate::cells::grid_square;

verus! {

/// One stamp sample: which stamp to read and where in its local frame.
#[derive(Clone, Copy, PartialEq, Eq, Structural, Debug)]
pub struct StampSample {
    /// Index of the stamp assigned to the coarse cell.
    pub stamp: usize,
    /// Column inside the stamp's matrix.
    pub local_x: usize,
    /// Row inside the stamp's matrix.
    pub local_y: usize,
}

/// The four stamp samples a coordinate blends, with its fractional position
/// (as a remainder, out of `stamp_size`) inside its own coarse cell.
#[derive(Clone, Copy, PartialEq, Eq, Structural, Debug)]
pub struct SamplePoint {
    /// Sample from the coordinate's own cell `(xdiv, ydiv)`.
    pub s11: StampSample,
    /// Sample from the cell one step back in x: `(xdiv - 1, ydiv)`.
    pub s01: StampSample,
    /// Sample from the cell one step back in y: `(xdiv, ydiv - 1)`.
    pub s10: StampSample,
    /// Sample from the diagonal cell `(xdiv - 1, ydiv - 1)`.
    pub s00: StampSample,
    /// `x` modulo `stamp_size`: the numerator of the x fraction.
    pub frac_x: usize,
    /// `y` modulo `stamp_size`: the numerator of the y fraction.
    pub frac_y: usize,
}

/// The coordinate's own coarse cell index on one axis lies inside the cell
/// grid with a full neighbour one step back.
pub open spec fn in_cell_range(w: int, stamp_size: int, side: int) -> bool {
    1 <= w / stamp_size < side
}

/// The point reads exactly the four neighbouring cells of `(x, y)` and
/// addresses each stamp at the offset of `(x, y)` from that cell's origin.
pub open spec fn sample_point_matches(
    p: SamplePoint,
    x: int,
    y: int,
    stamp_size: int,
    g: Seq<Seq<usize>>,
) -> bool {
    let xd = x / stamp_size;
    let yd = y / stamp_size;
    let lx = x % stamp_size;
    let ly = y % stamp_size;
    &&& p.s11.stamp == g[xd][yd]
    &&& p.s01.stamp == g[xd - 1][yd]
    &&& p.s10.stamp == g[xd][yd - 1]
    &&& p.s00.stamp == g[xd - 1][yd - 1]
    &&& p.s11.local_x == lx
    &&& p.s11.local_y == ly
    &&& p.s01.local_x == lx + stamp_size
    &&& p.s01.local_y == ly
    &&& p.s10.local_x == lx
    &&& p.s10.local_y == ly + stamp_size
    &&& p.s00.local_x == lx + stamp_size
    &&& p.s00.local_y == ly + stamp_size
    &&& p.frac_x == lx
    &&& p.frac_y == ly
}

/// Resolves the four stamp samples that the working-grid coordinate
/// `(x, y)` blends, or nothing when one of its neighbouring coarse cells
/// falls outside the cell grid (such a coordinate's output defaults to
/// `false`).
///
/// Every local coordinate of a returned point is strictly below the
/// stamp's doubled side, so it always addresses a cell of the stamp's
/// matrix.
pub fn locate_samples(x: usize, y: usize, stamp_size: usize, cells: &Vec<Vec<usize>>) -> (r:
    Option<SamplePoint>)
    requires
        stamp_size >= 1,
        2 * stamp_size <= usize::MAX,
        grid_square(cells.deep_view()),
    ensures
        r is Some <==> (in_cell_range(x as int, stamp_size as int, cells@.len() as int)
            && in_cell_range(y as int, stamp_size as int, cells@.len() as int)),
        r matches Some(p) ==> sample_point_matches(
            p,
            x as int,
            y as int,
            stamp_size as int,
            cells.deep_view(),
        ),
        r matches Some(p) ==> {
            &&& p.s11.local_x < 2 * stamp_size
            &&& p.s11.local_y < 2 * stamp_size
            &&& p.s01.local_x < 2 * stamp_size
            &&& p.s01.local_y < 2 * stamp_size
            &&& p.s10.local_x < 2 * stamp_size
            &&& p.s10.local_y < 2 * stamp_size
            &&& p.s00.local_x < 2 * stamp_size
            &&& p.s00.local_y < 2 * stamp_size
            &&& p.frac_x < stamp_size
            &&& p.frac_y < stamp_size
        },
{
    let xdiv = x / stamp_size;
    let ydiv = y / stamp_size;
    if xdiv < 1 || ydiv < 1 || xdiv >= cells.len() || ydiv >= cells.len() {
        return None;
    }
    proof {
        let g = cells.deep_view();
        assert(g.len() == cells@.len());
        assert(g[xdiv as int] =~= cells@[xdiv as int]@);
        assert(g[xdiv as int - 1] =~= cells@[xdiv as int - 1]@);
    }
    let lx = x % stamp_size;
    let ly = y % stamp_size;
    let sample_point = SamplePoint {
        s11: StampSample { stamp: cells[xdiv][ydiv], local_x: lx, local_y: ly },
        s01: StampSample {
            stamp: cells[xdiv - 1][ydiv],
            local_x: lx + stamp_size,
            local_y: ly,
        },
        s10: StampSample {
            stamp: cells[xdiv][ydiv - 1],
            local_x: lx,
            local_y: ly + stamp_size,
        },
        s00: StampSample {
            stamp: cells[xdiv - 1][ydiv - 1],
            local_x: lx + stamp_size,
            local_y: ly + stamp_size,
        },
        frac_x: lx,
        frac_y: ly,
    };
    Some(sample_point)
}

/// Law: the low-edge margin does its job.  A coordinate at least one full
/// stamp (two coarse cells) into the working grid, and inside it, always
/// has a coarse cell with all four neighbours available.
pub proof fn lemma_margin_keeps_cells_in_range(w: int, stamp_size: int, side: int)
    requires
        stamp_size >= 1,
        side >= 2,
        2 * stamp_size <= w < side * stamp_size,
    ensures
        in_cell_range(w, stamp_size, side),
{
    lemma_div_is_ordered(2 * stamp_size, w, stamp_size);
    lemma_div_multiples_vanish(2, stamp_size);
    assert(side * stamp_size - 1 == (side - 1) * stamp_size + (stamp_size - 1))
        by (nonlinear_arith);
    lemma_fundamental_div_mod_converse(side * stamp_size - 1, stamp_size, side - 1, stamp_size - 1);
    lemma_div_is_ordered(w, side * stamp_size - 1, stamp_size);
}

/// Resolves the sample addresses of every working-grid coordinate: row `i`,
/// column `j` of the result addresses coordinate `(real_stamp_size + i,
/// real_stamp_size + j)`.  Thanks to the margin, every such coordinate is
/// addressable — none falls back to the out-of-range default.
pub fn locate_all(
    stamp_size: usize,
    real_stamp_size: usize,
    real_world_size: usize,
    cells: &Vec<Vec<usize>>,
) -> (r: Vec<Vec<SamplePoint>>)
    requires
        stamp_size >= 1,
        real_stamp_size == 2 * stamp_size,
        cells@.len() >= 2,
        real_world_size == cells@.len() * stamp_size,
        grid_square(cells.deep_view()),
    ensures
        r@.len() == real_world_size - real_stamp_size,
        forall|i: int|
            0 <= i < r@.len() ==> (#[trigger] r@[i])@.len() == real_world_size - real_stamp_size,
        forall|i: int, j: int|
            #![trigger r@[i]@[j]]
            0 <= i < r@.len() && 0 <= j < r@.len() ==> sample_point_matches(
                r@[i]@[j],
                real_stamp_size + i,
                real_stamp_size + j,
                stamp_size as int,
                cells.deep_view(),
            ),
{
    let side = cells.len();
    proof {
        assert(2 * (stamp_size as int) <= (side as int) * (stamp_size as int))
            by (nonlinear_arith)
            requires
                stamp_size as int >= 1,
                side as int >= 2,
        ;
    }
    let count = real_world_size - real_stamp_size;
    let mut rows: Vec<Vec<SamplePoint>> = Vec::new();
    let mut i: usize = 0;
    while i < count
        invariant
            stamp_size >= 1,
            real_stamp_size == 2 * stamp_size,
            side == cells@.len(),
            side >= 2,
            real_world_size == side * stamp_size,
            grid_square(cells.deep_view()),
            count == real_world_size - real_stamp_size,
            i <= count,
            rows@.len() == i,
            forall|a: int| 0 <= a < i ==> (#[trigger] rows@[a])@.len() == count,
            forall|a: int, b: int|
                #![trigger rows@[a]@[b]]
                0 <= a < i && 0 <= b < count ==> sample_point_matches(
                    rows@[a]@[b],
                    real_stamp_size + a,
                    real_stamp_size + b,
                    stamp_size as int,
                    cells.deep_view(),
                ),
        decreases count - i,
    {
        let x = real_stamp_size + i;
        let mut row: Vec<SamplePoint> = Vec::new();
        let mut j: usize = 0;
        while j < count
            invariant
                stamp_size >= 1,
                real_stamp_size == 2 * stamp_size,
                side == cells@.len(),
                side >= 2,
                real_world_size == side * stamp_size,
                grid_square(cells.deep_view()),
                count == real_world_size - real_stamp_size,
                i < count,
                x == real_stamp_size + i,
                j <= count,
                row@.len() == j,
                forall|b: int|
                    #![trigger row@[b]]
                    0 <= b < j ==> sample_point_matches(
                        row@[b],
                        real_stamp_size + i,
                        real_stamp_size + b,
                        stamp_size as int,
                        cells.deep_view(),
                    ),
            decreases count - j,
        {
            let y = real_stamp_size + j;
            proof {
                lemma_margin_keeps_cells_in_range(x as int, stamp_size as int, side as int);
                lemma_margin_keeps_cells_in_range(y as int, stamp_size as int, side as int);
            }
            let sample_point = match locate_samples(x, y, stamp_size, cells) {
                Some(sample_point) => sample_point,
                None => vstd::pervasive::unreached(),
            };
            row.push(sample_point);
            j += 1;
        }
        rows.push(row);
        i += 1;
    }
    rows
}

} // verus!
