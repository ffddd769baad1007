//! Laying the mines: at random for a new game, or where a caller wants them.

use rand::rngs::ThreadRng;
use vstd::pervasive::unreached;
use vstd::prelude::*;
use crate::board::{
    count_before, count_cells, count_in_row, in_bounds, is_mine_cell, is_safe_cell, is_square,
    mine_total, positions,
};
use crate::cell::Cell;
use crate::constants::MAX_MISSES;
use crate::counting::{
    lemma_grid_count_split, lemma_grid_count_update, lemma_grid_count_witness,
    lemma_grid_prefix_step, lemma_row_prefix_step,
};
use crate::grid::{cell_at, rows_of, set_cell};
use crate::random::{random_below, thread_rng};
use crate::setup::{is_bare, laid_out, lemma_lay_one_more, lemma_push_keeps_distinct, mined};

verus! {

/// The mine-free cell that has exactly `k` mine-free cells before it when
/// the grid is read row by row.
fn nth_free_cell(grid: &Vec<Vec<Cell>>, k: usize) -> (at: (usize, usize))
    requires
        is_square(rows_of(grid@)),
        k < count_cells(rows_of(grid@), is_safe_cell()),
    ensures
        in_bounds(rows_of(grid@), at.0 as int, at.1 as int),
        !rows_of(grid@)[at.0 as int][at.1 as int].is_mine,
        count_before(rows_of(grid@), is_safe_cell(), at.0 as int, at.1 as int) == k,
{
    let size = grid.len();
    let ghost cells = rows_of(grid@);
    let ghost pick = is_safe_cell();
    let mut seen: usize = 0;
    let mut row: usize = 0;
    while row < size
        invariant
            row <= size,
            cells == rows_of(grid@),
            cells.len() == size,
            is_square(cells),
            pick == is_safe_cell(),
            k < count_cells(cells, pick),
            seen <= k,
            seen == count_cells(cells.take(row as int), pick),
        decreases size - row,
    {
        let ghost above = seen;
        let ghost here = cells[row as int];
        let mut col: usize = 0;
        while col < size
            invariant
                row < size,
                col <= size,
                cells == rows_of(grid@),
                cells.len() == size,
                here == cells[row as int],
                here.len() == size,
                pick == is_safe_cell(),
                above == count_cells(cells.take(row as int), pick),
                seen <= k,
                seen == above + count_in_row(here.take(col as int), pick),
            decreases size - col,
        {
            let cell = cell_at(grid, row, col);
            proof {
                lemma_row_prefix_step(here, pick, col as int);
            }
            if !cell.is_mine {
                if seen == k {
                    return (row, col);
                }
                seen += 1;
            }
            col += 1;
        }
        proof {
            assert(here.take(size as int) =~= here);
            lemma_grid_prefix_step(cells, pick, row as int);
        }
        row += 1;
    }
    proof {
        assert(cells.take(size as int) =~= cells);
    }
    unreached()
}

/// Draws a mine-free cell, each with the same chance.
///
/// Cells are drawn from the whole grid until one without a mine comes up.
/// After [`MAX_MISSES`] draws of a mined cell in a row the cell is drawn from
/// the mine-free cells alone, so the search always ends.
fn pick_free_cell(grid: &Vec<Vec<Cell>>, rng: &mut ThreadRng, mines_placed: usize) -> (at: (
    usize,
    usize,
))
    requires
        is_square(rows_of(grid@)),
        rows_of(grid@).len() * rows_of(grid@).len() <= usize::MAX,
        mine_total(rows_of(grid@)) == mines_placed,
        mines_placed < rows_of(grid@).len() * rows_of(grid@).len(),
    ensures
        in_bounds(rows_of(grid@), at.0 as int, at.1 as int),
        !rows_of(grid@)[at.0 as int][at.1 as int].is_mine,
{
    let size = grid.len();
    assert(size > 0) by (nonlinear_arith)
        requires
            mines_placed < size * size,
    ;
    let mut misses: usize = 0;
    while misses < MAX_MISSES
        invariant
            0 < size == rows_of(grid@).len(),
            is_square(rows_of(grid@)),
        decreases MAX_MISSES - misses,
    {
        let row = random_below(rng, size);
        let col = random_below(rng, size);
        if !cell_at(grid, row, col).is_mine {
            return (row, col);
        }
        misses += 1;
    }
    proof {
        lemma_grid_count_split(rows_of(grid@), is_mine_cell(), is_safe_cell(), size as nat);
    }
    let free = size * size - mines_placed;
    let k = random_below(rng, free);
    nth_free_cell(grid, k)
}

/// Lays `mine_count` mines on a grid that has none, each in a cell drawn at
/// random from those still free.
pub(crate) fn place_mines(grid: &mut Vec<Vec<Cell>>, mine_count: usize)
    requires
        rows_of(old(grid)@) == laid_out(rows_of(old(grid)@).len(), Seq::empty()),
        mine_count < rows_of(old(grid)@).len() * rows_of(old(grid)@).len() <= usize::MAX,
    ensures
        rows_of(final(grid)@).len() == rows_of(old(grid)@).len(),
        is_square(rows_of(final(grid)@)),
        is_bare(rows_of(final(grid)@)),
        mine_total(rows_of(final(grid)@)) == mine_count,
{
    let mut rng = thread_rng();
    let size = grid.len();
    let mut mines_placed: usize = 0;
    proof {
        if mine_total(rows_of(grid@)) > 0 {
            lemma_grid_count_witness(rows_of(grid@), is_mine_cell());
        }
    }
    while mines_placed < mine_count
        invariant
            rows_of(grid@).len() == size,
            mine_count < size * size <= usize::MAX,
            is_square(rows_of(grid@)),
            is_bare(rows_of(grid@)),
            mines_placed <= mine_count,
            mine_total(rows_of(grid@)) == mines_placed,
        decreases mine_count - mines_placed,
    {
        let at = pick_free_cell(grid, &mut rng, mines_placed);
        let cell = cell_at(grid, at.0, at.1);
        proof {
            lemma_grid_count_update(
                rows_of(grid@),
                is_mine_cell(),
                at.0 as int,
                at.1 as int,
                mined(cell),
            );
        }
        set_cell(grid, at.0, at.1, Cell { is_mine: true, ..cell });
        mines_placed += 1;
    }
}

/// Lays a mine at each of the positions `mines` on a grid that has none, and
/// says whether that could be done: whether every position lies on the grid
/// and none is named twice.
pub(crate) fn lay_mines(grid: &mut Vec<Vec<Cell>>, mines: &Vec<(usize, usize)>) -> (done: bool)
    requires
        rows_of(old(grid)@) == laid_out(rows_of(old(grid)@).len(), Seq::empty()),
    ensures
        done <==> positions(mines@).no_duplicates() && forall|k: int|
            0 <= k < mines@.len() ==> 0 <= (#[trigger] positions(mines@)[k]).0 < rows_of(
                old(grid)@,
            ).len() && 0 <= positions(mines@)[k].1 < rows_of(old(grid)@).len(),
        done ==> rows_of(final(grid)@) == laid_out(rows_of(old(grid)@).len(), positions(mines@)),
        done ==> mine_total(rows_of(final(grid)@)) == mines@.len(),
{
    let size = grid.len();
    let ghost wanted = positions(mines@);
    let mut i: usize = 0;
    proof {
        assert(wanted.take(0) =~= Seq::empty());
        if mine_total(rows_of(grid@)) > 0 {
            lemma_grid_count_witness(rows_of(grid@), is_mine_cell());
        }
    }
    while i < mines.len()
        invariant
            i <= mines.len(),
            wanted == positions(mines@),
            size == rows_of(old(grid)@).len(),
            rows_of(grid@) == laid_out(size as nat, wanted.take(i as int)),
            mine_total(rows_of(grid@)) == i,
            wanted.take(i as int).no_duplicates(),
            forall|k: int|
                0 <= k < i ==> 0 <= (#[trigger] wanted[k]).0 < size && 0 <= wanted[k].1 < size,
        decreases mines.len() - i,
    {
        let row = mines[i].0;
        let col = mines[i].1;
        let ghost p = (row as int, col as int);
        let ghost laid = wanted.take(i as int);
        assert(wanted[i as int] == p);
        if row >= size || col >= size {
            return false;
        }
        proof {
            lemma_lay_one_more(size as nat, laid, p);
        }
        let cell = cell_at(grid, row, col);
        if cell.is_mine {
            proof {
                let j = choose|j: int| 0 <= j < laid.len() && laid[j] == p;
                assert(wanted[j] == wanted[i as int]);
            }
            return false;
        }
        proof {
            lemma_grid_count_update(rows_of(grid@), is_mine_cell(), p.0, p.1, mined(cell));
            lemma_push_keeps_distinct(laid, p);
            assert(wanted.take(i + 1) =~= laid.push(p));
        }
        set_cell(grid, row, col, Cell { is_mine: true, ..cell });
        i += 1;
    }
    proof {
        assert(wanted.take(mines.len() as int) =~= wanted);
    }
    true
}

} // verus!
