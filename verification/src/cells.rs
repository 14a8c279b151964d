//! Seed-driven assignment of a stamp index to every coarse cell.
//!
//! A generator seeded from the caller's string yields one raw draw per
//! coarse cell, consumed in row-major order (outer x, inner y); the cell's
//! stamp index is that draw reduced modulo the stamp count.  The traversal
//! order is part of the contract: reordering it would change every seed's
//! field.

use vstd::prelude::*;
use rand::Rng;

verus! {

/// The stream of raw draws that a PCG-32 generator seeded from the given
/// string produces: the first `n` values, in order.
pub uninterp spec fn seed_draws(seed: Seq<char>, n: nat) -> Seq<u64>;

/// Relies on `rand_seeder::Seeder::{from, make_rng}` and `rand_pcg::Pcg32`
/// through `rand::Rng::gen::<u64>`: the seeder is documented as portable and
/// reproducible, and PCG-32 is a fixed deterministic algorithm, so the draws
/// are a function of the seed string alone.
#[verifier::external_body]
fn seeded_draws(seed: &str, n: usize) -> (r: Vec<u64>)
    ensures
        r@ == seed_draws(seed@, n as nat),
        r@.len() == n,
{
    let mut rng: rand_pcg::Pcg32 = rand_seeder::Seeder::from(seed).make_rng();
    let mut out: Vec<u64> = Vec::with_capacity(n);
    for _ in 0..n {
        out.push(rng.gen::<u64>());
    }
    out
}

/// The stamp index a raw draw selects: the draw reduced modulo the stamp
/// count.
pub open spec fn spec_cell_index(draw: u64, accuracy: u32) -> usize
    recommends
        accuracy >= 1,
{
    (draw % (accuracy as u64)) as usize
}

/// The whole coarse assignment for a `side` by `side` cell grid: cell
/// (x, y) takes the draw at row-major position `x * side + y`.
pub open spec fn spec_cell_grid(seed: Seq<char>, accuracy: u32, side: nat) -> Seq<Seq<usize>> {
    Seq::new(
        side,
        |x: int|
            Seq::new(
                side,
                |y: int|
                    spec_cell_index(
                        seed_draws(seed, (side * side) as nat)[x * side + y],
                        accuracy,
                    ),
            ),
    )
}

/// Every row of the grid is as long as the grid is tall.
pub open spec fn grid_square(g: Seq<Seq<usize>>) -> bool {
    forall|i: int| 0 <= i < g.len() ==> (#[trigger] g[i]).len() == g.len()
}

/// Every entry of the grid is a valid stamp index.
pub open spec fn grid_bounded(g: Seq<Seq<usize>>, accuracy: u32) -> bool {
    forall|i: int, j: int|
        0 <= i < g.len() && 0 <= j < g[i].len() ==> (#[trigger] g[i][j]) < accuracy
}

/// Builds the coarse cell grid for the given seed: `side` rows of `side`
/// stamp indices each, drawn in row-major order from the seeded stream.
pub fn assign_cells(seed: &str, accuracy: u32, side: usize) -> (r: Vec<Vec<usize>>)
    requires
        accuracy >= 1,
        side * side <= usize::MAX,
    ensures
        r.deep_view() == spec_cell_grid(seed@, accuracy, side as nat),
        r@.len() == side,
        grid_square(r.deep_view()),
        grid_bounded(r.deep_view(), accuracy),
{
    let ghost target = spec_cell_grid(seed@, accuracy, side as nat);
    let draws = seeded_draws(seed, side * side);
    let mut cells: Vec<Vec<usize>> = Vec::new();
    let mut x: usize = 0;
    while x < side
        invariant
            x <= side,
            accuracy >= 1,
            side * side <= usize::MAX,
            draws@ == seed_draws(seed@, (side as nat) * (side as nat)),
            draws@.len() == side * side,
            target == spec_cell_grid(seed@, accuracy, side as nat),
            cells@.len() == x,
            forall|i: int| 0 <= i < x ==> (#[trigger] cells@[i])@ == target[i],
        decreases side - x,
    {
        let mut row: Vec<usize> = Vec::new();
        let mut y: usize = 0;
        while y < side
            invariant
                y <= side,
                x < side,
                accuracy >= 1,
                side * side <= usize::MAX,
                draws@ == seed_draws(seed@, (side as nat) * (side as nat)),
                draws@.len() == side * side,
                target == spec_cell_grid(seed@, accuracy, side as nat),
                row@.len() == y,
                forall|j: int| 0 <= j < y ==> (#[trigger] row@[j]) == target[x as int][j],
            decreases side - y,
        {
            proof {
                assert(x * side + y < side * side) by (nonlinear_arith)
                    requires
                        0 <= x < side,
                        0 <= y < side,
                ;
            }
            let draw = draws[x * side + y];
            let index = (draw % (accuracy as u64)) as usize;
            proof {
                assert(target[x as int][y as int] == spec_cell_index(
                    seed_draws(seed@, (side as nat) * (side as nat))[x * side + y],
                    accuracy,
                ));
            }
            row.push(index);
            y += 1;
        }
        cells.push(row);
        x += 1;
    }
    proof {
        assert(cells.deep_view() =~~= target);
    }
    cells
}

/// Law: with a single stamp, every coarse cell is assigned stamp zero, so
/// the sampled field repeats one tiled pattern with no cross-cell
/// variation.
pub proof fn lemma_single_stamp_degeneracy(seed: Seq<char>, side: nat)
    ensures
        forall|x: int, y: int|
            0 <= x < side && 0 <= y < side ==> spec_cell_grid(seed, 1, side)[x][y] == 0,
{
    assert forall|x: int, y: int|
        0 <= x < side && 0 <= y < side implies spec_cell_grid(seed, 1, side)[x][y] == 0 by {
        let d = seed_draws(seed, (side * side) as nat)[x * side + y];
        assert(d % 1u64 == 0) by (bit_vector);
    }
}

} // verus!
