//! How a reveal spreads over the grid.
//!
//! Revealing a cell with no mined neighbour reveals its neighbours too, and
//! so on from every such neighbour. This module says which cells that
//! reaches, as the set of end points of paths over the grid as it was before
//! the reveal.

use vstd::prelude::*;
use crate::board::{adjacency_exact, adjacent, in_bounds};
use crate::neighborhood::lemma_no_mine_around;
use crate::cell::Cell;

verus! {

/// A reveal of `from` goes on to `to`: `from` is a mine-free cell with no
/// mined neighbour, and `to` is a neighbour of it that is neither revealed
/// nor flagged.
pub open spec fn spreads(cells: Seq<Seq<Cell>>, from: (int, int), to: (int, int)) -> bool {
    &&& in_bounds(cells, from.0, from.1)
    &&& in_bounds(cells, to.0, to.1)
    &&& adjacent(from.0, from.1, to.0, to.1)
    &&& !cells[from.0][from.1].is_mine
    &&& cells[from.0][from.1].adjacent_mines == 0
    &&& !cells[to.0][to.1].is_revealed
    &&& !cells[to.0][to.1].is_flagged
}

/// A non-empty walk along which a reveal spreads step by step.
pub open spec fn is_cascade_path(cells: Seq<Seq<Cell>>, path: Seq<(int, int)>) -> bool {
    &&& path.len() > 0
    &&& forall|i: int| 0 <= i < path.len() - 1 ==> spreads(cells, #[trigger] path[i], path[i + 1])
}

/// A reveal of `start` reaches `target`.
pub open spec fn cascades_to(cells: Seq<Seq<Cell>>, start: (int, int), target: (int, int)) -> bool {
    exists|path: Seq<(int, int)>|
        #[trigger] is_cascade_path(cells, path) && path.first() == start && path.last() == target
}

/// Everything a reveal of `(r, c)` reaches, `(r, c)` itself included.
pub open spec fn cascade_region(cells: Seq<Seq<Cell>>, r: int, c: int) -> Set<(int, int)> {
    Set::new(|target: (int, int)| cascades_to(cells, (r, c), target))
}

/// A reveal reaches the cell it starts from.
pub proof fn lemma_cascade_start(cells: Seq<Seq<Cell>>, start: (int, int))
    ensures
        cascades_to(cells, start, start),
{
    let path = seq![start];
    assert(is_cascade_path(cells, path));
}

/// What a reveal reaches, it spreads from.
pub proof fn lemma_cascade_extend(
    cells: Seq<Seq<Cell>>,
    start: (int, int),
    via: (int, int),
    target: (int, int),
)
    requires
        cascades_to(cells, start, via),
        spreads(cells, via, target),
    ensures
        cascades_to(cells, start, target),
{
    let path = choose|path: Seq<(int, int)>|
        #[trigger] is_cascade_path(cells, path) && path.first() == start && path.last() == via;
    let longer = path.push(target);
    assert(is_cascade_path(cells, longer));
}

/// A reached cell other than the start was entered by a last step.
pub proof fn lemma_cascade_last_step(cells: Seq<Seq<Cell>>, start: (int, int), target: (int, int))
    requires
        cascades_to(cells, start, target),
        target != start,
    ensures
        exists|via: (int, int)|
            cascades_to(cells, start, via) && #[trigger] spreads(cells, via, target),
{
    let path = choose|path: Seq<(int, int)>|
        #[trigger] is_cascade_path(cells, path) && path.first() == start && path.last() == target;
    let shorter = path.drop_last();
    assert(is_cascade_path(cells, shorter));
}

/// Every position of a cascade path lies in a set that holds the path's
/// first position and is closed under spreading.
proof fn lemma_path_stays_inside(
    cells: Seq<Seq<Cell>>,
    path: Seq<(int, int)>,
    closed: Set<(int, int)>,
    i: int,
)
    requires
        is_cascade_path(cells, path),
        closed.contains(path.first()),
        forall|a: (int, int), b: (int, int)|
            closed.contains(a) && #[trigger] spreads(cells, a, b) ==> closed.contains(b),
        0 <= i < path.len(),
    ensures
        closed.contains(path[i]),
    decreases i,
{
    if i > 0 {
        lemma_path_stays_inside(cells, path, closed, i - 1);
    }
}

/// The region of a reveal is the least set that holds the start and is
/// closed under spreading: any such set holds everything the reveal reaches.
pub proof fn lemma_cascade_least(
    cells: Seq<Seq<Cell>>,
    start: (int, int),
    closed: Set<(int, int)>,
    target: (int, int),
)
    requires
        closed.contains(start),
        forall|a: (int, int), b: (int, int)|
            closed.contains(a) && #[trigger] spreads(cells, a, b) ==> closed.contains(b),
        cascades_to(cells, start, target),
    ensures
        closed.contains(target),
{
    let path = choose|path: Seq<(int, int)>|
        #[trigger] is_cascade_path(cells, path) && path.first() == start && path.last() == target;
    lemma_path_stays_inside(cells, path, closed, path.len() - 1);
}

/// On a grid with exact neighbour counts a reveal never spreads onto a mine.
pub proof fn lemma_spread_avoids_mines(cells: Seq<Seq<Cell>>, from: (int, int), to: (int, int))
    requires
        adjacency_exact(cells),
        spreads(cells, from, to),
    ensures
        !cells[to.0][to.1].is_mine,
{
    lemma_no_mine_around(cells, from.0, from.1, to.0, to.1);
}

/// What a reveal of a covered, unflagged, mine-free cell reaches is inside
/// the grid, covered, unflagged and free of mines.
pub proof fn lemma_cascade_target(cells: Seq<Seq<Cell>>, start: (int, int), target: (int, int))
    requires
        adjacency_exact(cells),
        in_bounds(cells, start.0, start.1),
        !cells[start.0][start.1].is_mine,
        !cells[start.0][start.1].is_revealed,
        !cells[start.0][start.1].is_flagged,
        cascades_to(cells, start, target),
    ensures
        in_bounds(cells, target.0, target.1),
        !cells[target.0][target.1].is_mine,
        !cells[target.0][target.1].is_revealed,
        !cells[target.0][target.1].is_flagged,
{
    if target != start {
        lemma_cascade_last_step(cells, start, target);
        let via = choose|via: (int, int)|
            cascades_to(cells, start, via) && #[trigger] spreads(cells, via, target);
        lemma_spread_avoids_mines(cells, via, target);
    }
}

/// A reveal of a cell that has a mined neighbour reaches that cell only.
pub proof fn lemma_cascade_numbered(cells: Seq<Seq<Cell>>, start: (int, int), target: (int, int))
    requires
        in_bounds(cells, start.0, start.1),
        !cells[start.0][start.1].is_revealed,
        cells[start.0][start.1].adjacent_mines != 0,
        cascades_to(cells, start, target),
    ensures
        target == start,
{
    let path = choose|path: Seq<(int, int)>|
        #[trigger] is_cascade_path(cells, path) && path.first() == start && path.last() == target;
    if path.len() > 1 {
        assert(spreads(cells, path[0], path[1]));
    }
}

} // verus!
