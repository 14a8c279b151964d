//! Validation and sizing of a generation request, and the seeded coarse
//! assignment that follows from it.
//!
//! The working grid is oversized: its side is the requested world size
//! rounded up to a whole number of coarse cells, plus one full stamp of
//! margin at the low edge so that every sampled coordinate always has four
//! complete neighbouring cells.

use vstd::prelude::*;
use vstd::arithmetic::div_mod::{lemma_fundamental_div_mod, lemma_fundamental_div_mod_converse};
use crate::cells::{assign_cells, grid_bounded, grid_square, spec_cell_grid};

verus! {

/// Why a generation request was rejected.
#[derive(Clone, Copy, PartialEq, Eq, Structural, Debug)]
pub enum NoiseError {
    /// A parameter that must be at least one was zero.
    InvalidParameter,
}

impl NoiseError {
    /// A short description of the failure.
    pub fn describe(&self) -> (r: &'static str)
        ensures
            r@ == "accuracy, stamp size and world size must all be at least 1"@,
    {
        "accuracy, stamp size and world size must all be at least 1"
    }
}

/// Ceiling division: the least multiple of `b` at or above `a`, divided by
/// `b`.
pub open spec fn ceil_div(a: int, b: int) -> int
    recommends
        a >= 1,
        b >= 1,
{
    (a + b - 1) / b
}

/// Side length of each stamp's matrix: twice the requested stamp size.
pub open spec fn spec_real_stamp_size(stamp_size: int) -> int {
    2 * stamp_size
}

/// Side length of the coarse cell grid: enough whole cells to cover the
/// requested world, plus two for the low-edge margin.
pub open spec fn spec_grid_side(world_size: int, stamp_size: int) -> int {
    ceil_div(world_size, stamp_size) + 2
}

/// Side length of the oversized working grid: a whole number of coarse
/// cells.
pub open spec fn spec_real_world_size(world_size: int, stamp_size: int) -> int {
    spec_grid_side(world_size, stamp_size) * stamp_size
}

/// Everything the sampling stage needs: the working sizes and the seeded
/// assignment of a stamp index to every coarse cell.
#[derive(Debug)]
pub struct NoisePlan {
    /// Side length of each stamp's matrix: twice the requested stamp size.
    pub real_stamp_size: usize,
    /// Side length of the oversized working grid.
    pub real_world_size: usize,
    /// Side length of the coarse cell grid.
    pub grid_side: usize,
    /// The stamp index assigned to each coarse cell, row-major.
    pub cells: Vec<Vec<usize>>,
}

/// The plan is exactly what the parameters dictate: the three sizes follow
/// the sizing formulas and the cells hold the seeded assignment.
pub open spec fn plan_matches(
    p: NoisePlan,
    seed: Seq<char>,
    accuracy: u32,
    stamp_size: int,
    world_size: int,
) -> bool {
    &&& p.real_stamp_size == spec_real_stamp_size(stamp_size)
    &&& p.real_world_size == spec_real_world_size(world_size, stamp_size)
    &&& p.grid_side == spec_grid_side(world_size, stamp_size)
    &&& p.cells.deep_view() == spec_cell_grid(seed, accuracy, p.grid_side as nat)
}

/// Law: generation is deterministic on the library's side.  Two plans
/// built from the same seed and the same parameters agree on every size
/// and on every cell's stamp assignment; all later stages are functions of
/// the plan alone.
pub proof fn lemma_plan_deterministic(
    p1: NoisePlan,
    p2: NoisePlan,
    seed: Seq<char>,
    accuracy: u32,
    stamp_size: int,
    world_size: int,
)
    requires
        plan_matches(p1, seed, accuracy, stamp_size, world_size),
        plan_matches(p2, seed, accuracy, stamp_size, world_size),
    ensures
        p1.real_stamp_size == p2.real_stamp_size,
        p1.real_world_size == p2.real_world_size,
        p1.grid_side == p2.grid_side,
        p1.cells.deep_view() == p2.cells.deep_view(),
{
}

/// Validates a generation request and builds its plan.
///
/// Fails fast, before the seeded stream is consumed or anything larger is
/// allocated, exactly when a parameter that must be at least one is zero.
pub fn plan_noise(seed: &str, accuracy: u32, stamp_size: usize, world_size: usize) -> (r: Result<
    NoisePlan,
    NoiseError,
>)
    requires
        stamp_size >= 1 && world_size >= 1 ==> {
            &&& spec_real_world_size(world_size as int, stamp_size as int) <= usize::MAX
            &&& spec_grid_side(world_size as int, stamp_size as int) * spec_grid_side(
                world_size as int,
                stamp_size as int,
            ) <= usize::MAX
        },
    ensures
        r is Err <==> (accuracy == 0 || stamp_size == 0 || world_size == 0),
        r matches Err(e) ==> e == NoiseError::InvalidParameter,
        r matches Ok(p) ==> plan_matches(p, seed@, accuracy, stamp_size as int, world_size as int),
        r matches Ok(p) ==> {
            &&& p.cells@.len() == p.grid_side
            &&& grid_square(p.cells.deep_view())
            &&& grid_bounded(p.cells.deep_view(), accuracy)
        },
        r matches Ok(p) ==> p.real_stamp_size + world_size <= p.real_world_size,
{
    if accuracy == 0 || stamp_size == 0 || world_size == 0 {
        return Err(NoiseError::InvalidParameter);
    }
    let ws = world_size;
    let ss = stamp_size;
    proof {
        lemma_fundamental_div_mod(ws as int - 1, ss as int);
        assert((ws as int - 1) / (ss as int) <= ws as int - 1 && (ws as int - 1) / (ss as int)
            >= 0) by (nonlinear_arith)
            requires
                ss as int >= 1,
                ws as int >= 1,
                ws as int - 1 == (ss as int) * ((ws as int - 1) / (ss as int)) + (ws as int - 1) % (
                ss as int),
                0 <= (ws as int - 1) % (ss as int) < ss as int,
        ;
    }
    let cdiv = (ws - 1) / ss;
    proof {
        // `cdiv + 1` is the ceiling of `ws / ss`.
        let r = (ws as int - 1) % (ss as int);
        assert(ws as int + ss as int - 1 == (cdiv as int + 1) * (ss as int) + r)
            by (nonlinear_arith)
            requires
                ws as int - 1 == (ss as int) * (cdiv as int) + r,
        ;
        lemma_fundamental_div_mod_converse(
            ws as int + ss as int - 1,
            ss as int,
            cdiv as int + 1,
            r,
        );
        assert(ceil_div(ws as int, ss as int) == cdiv as int + 1);
        // The grid side fits: it is at most the working side, which fits.
        assert(cdiv as int + 3 <= (cdiv as int + 3) * (ss as int) && 2 * (ss as int) <= (
        cdiv as int + 3) * (ss as int) && ws as int <= (cdiv as int + 1) * (ss as int) && 2 * (
        ss as int) + ws as int <= (cdiv as int + 3) * (ss as int))
            by (nonlinear_arith)
            requires
                ss as int >= 1,
                ws as int >= 1,
                cdiv as int >= 0,
                ws as int + ss as int - 1 == (cdiv as int + 1) * (ss as int) + r,
                0 <= r < ss as int,
        ;
    }
    let grid_side = cdiv + 3;
    let real_world_size = grid_side * ss;
    let real_stamp_size = 2 * ss;
    let cells = assign_cells(seed, accuracy, grid_side);
    Ok(NoisePlan { real_stamp_size, real_world_size, grid_side, cells })
}

} // verus!
