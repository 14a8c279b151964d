//! Finishing: cropping the oversized working grid to the caller's requested
//! dimensions, and rendering a grid as text for the debug printer.

use vstd::prelude::*;

verus! {

/// A row cropped to at most `size` entries: unchanged when already short
/// enough, otherwise its prefix of length `size`.
pub open spec fn spec_trim_row(row: Seq<bool>, size: int) -> Seq<bool> {
    if row.len() <= size {
        row
    } else {
        row.subrange(0, size)
    }
}

/// Crops the grid in place: at most `size` rows, each of at most `size`
/// entries, every kept entry unchanged.  On a working grid whose rows and
/// columns both reach `size`, the result is exactly `size` by `size`.
pub fn cut_noise_to_dimensions(vec: &mut Vec<Vec<bool>>, size: usize)
    ensures
        final(vec)@.len() == if old(vec)@.len() <= size {
            old(vec)@.len() as int
        } else {
            size as int
        },
        forall|i: int|
            0 <= i < final(vec)@.len() ==> (#[trigger] final(vec)@[i])@ == spec_trim_row(
                old(vec)@[i]@,
                size as int,
            ),
{
    vec.truncate(size);
    let ghost mid = vec@;
    let mut i: usize = 0;
    while i < vec.len()
        invariant
            vec@.len() == mid.len(),
            i <= vec@.len(),
            forall|j: int| 0 <= j < i ==> (#[trigger] vec@[j])@ == spec_trim_row(mid[j]@, size as int),
            forall|j: int| i <= j < vec@.len() ==> vec@[j] == mid[j],
        decreases vec@.len() - i,
    {
        let ghost prev = vec@;
        let mut row = vec.remove(i);
        let ghost before = row@;
        row.truncate(size);
        proof {
            assert(row@ == spec_trim_row(before, size as int));
        }
        let ghost trimmed = row@;
        vec.insert(i, row);
        proof {
            assert(vec@ =~= prev.update(i as int, vec@[i as int]));
            assert(vec@[i as int]@ == trimmed);
        }
        i += 1;
    }
}

/// Law: cropping a working grid whose row count and row lengths both reach
/// `size` yields exactly `size` rows of exactly `size` entries; the output
/// is always a true square, never ragged.
pub proof fn lemma_output_square(before: Seq<Seq<bool>>, after: Seq<Seq<bool>>, size: int)
    requires
        size >= 0,
        before.len() >= size,
        forall|i: int| 0 <= i < before.len() ==> (#[trigger] before[i]).len() >= size,
        after.len() == if before.len() <= size {
            before.len() as int
        } else {
            size
        },
        forall|i: int|
            0 <= i < after.len() ==> (#[trigger] after[i]) == spec_trim_row(before[i], size),
    ensures
        after.len() == size,
        forall|i: int| 0 <= i < size ==> (#[trigger] after[i]).len() == size,
{
}

/// The byte a cell renders to: `X` for a kept cell, a space otherwise.
pub open spec fn spec_render_cell(b: bool) -> u8 {
    if b {
        88u8
    } else {
        32u8
    }
}

/// A row's rendering: one byte per cell, closed by a newline.
pub open spec fn spec_render_row(row: Seq<bool>) -> Seq<u8> {
    row.map_values(|b: bool| spec_render_cell(b)).push(10u8)
}

/// A grid's rendering: its rows' renderings, in order.
pub open spec fn spec_render_grid(g: Seq<Seq<bool>>) -> Seq<u8>
    decreases g.len(),
{
    if g.len() == 0 {
        Seq::empty()
    } else {
        spec_render_row(g[0]) + spec_render_grid(g.drop_first())
    }
}

proof fn lemma_render_grid_push(g: Seq<Seq<bool>>, row: Seq<bool>)
    ensures
        spec_render_grid(g.push(row)) == spec_render_grid(g) + spec_render_row(row),
    decreases g.len(),
{
    if g.len() == 0 {
        assert(g.push(row).drop_first() =~= g);
        assert(g.push(row)[0] == row);
        assert(spec_render_grid(g) + spec_render_row(row) =~= spec_render_row(row));
    } else {
        assert(g.push(row).drop_first() =~= g.drop_first().push(row));
        assert(g.push(row)[0] == g[0]);
        lemma_render_grid_push(g.drop_first(), row);
        assert(spec_render_row(g[0]) + (spec_render_grid(g.drop_first()) + spec_render_row(row))
            =~= (spec_render_row(g[0]) + spec_render_grid(g.drop_first())) + spec_render_row(row));
    }
}

/// Renders a grid as text for the debug printer: one line per row, an `X`
/// for each kept cell and a space for each dropped one, every line
/// newline-terminated.
pub fn render_noise(grid: &Vec<Vec<bool>>) -> (r: Vec<u8>)
    ensures
        r@ == spec_render_grid(grid.deep_view()),
{
    let ghost g = grid.deep_view();
    proof {
        assert(g.len() == grid@.len());
    }
    let mut out: Vec<u8> = Vec::new();
    let mut i: usize = 0;
    while i < grid.len()
        invariant
            g == grid.deep_view(),
            g.len() == grid@.len(),
            i <= grid@.len(),
            out@ == spec_render_grid(g.take(i as int)),
        decreases grid@.len() - i,
    {
        proof {
            assert(g[i as int] =~= grid@[i as int]@);
        }
        let row_len = grid[i].len();
        let mut j: usize = 0;
        while j < row_len
            invariant
                g == grid.deep_view(),
                g.len() == grid@.len(),
                i < grid@.len(),
                g[i as int] == grid@[i as int]@,
                row_len == grid@[i as int]@.len(),
                j <= row_len,
                out@ == spec_render_grid(g.take(i as int)) + g[i as int].take(j as int).map_values(
                    |b: bool| spec_render_cell(b),
                ),
            decreases row_len - j,
        {
            let b = grid[i][j];
            if b {
                out.push(88u8);
            } else {
                out.push(32u8);
            }
            proof {
                assert(g[i as int].take(j as int + 1).map_values(|b: bool| spec_render_cell(b))
                    =~= g[i as int].take(j as int).map_values(|b: bool| spec_render_cell(b)).push(
                    spec_render_cell(g[i as int][j as int]),
                ));
            }
            j += 1;
        }
        out.push(10u8);
        proof {
            assert(g[i as int].take(row_len as int) =~= g[i as int]);
            lemma_render_grid_push(g.take(i as int), g[i as int]);
            assert(g.take(i as int + 1) =~= g.take(i as int).push(g[i as int]));
            assert(out@ == spec_render_grid(g.take(i as int)) + spec_render_row(g[i as int]));
        }
        i += 1;
    }
    proof {
        assert(g.take(g.len() as int) =~= g);
    }
    out
}

} // verus!
