//! Facts about the neighbours of a cell.

use vstd::prelude::*;
use crate::board::{adjacent, if_inside, mine_at, neighbor_mines, neighbors};
use crate::cell::Cell;

verus! {

/// Every entry of [`neighbors`] lies on the grid and touches the cell.
pub proof fn lemma_neighbors_sound(size: int, r: int, c: int, k: int)
    requires
        0 <= k < neighbors(size, r, c).len(),
    ensures
        0 <= neighbors(size, r, c)[k].0 < size,
        0 <= neighbors(size, r, c)[k].1 < size,
        adjacent(r, c, neighbors(size, r, c)[k].0, neighbors(size, r, c)[k].1),
{
}

/// Every position on the grid that touches the cell is an entry of
/// [`neighbors`].
pub proof fn lemma_neighbors_complete(size: int, r: int, c: int, p: (int, int))
    requires
        0 <= p.0 < size,
        0 <= p.1 < size,
        adjacent(r, c, p.0, p.1),
    ensures
        neighbors(size, r, c).contains(p),
{
    let s1 = if_inside(size, r - 1, c - 1);
    let s2 = s1 + if_inside(size, r - 1, c);
    let s3 = s2 + if_inside(size, r - 1, c + 1);
    let s4 = s3 + if_inside(size, r, c - 1);
    let s5 = s4 + if_inside(size, r, c + 1);
    let s6 = s5 + if_inside(size, r + 1, c - 1);
    let s7 = s6 + if_inside(size, r + 1, c);
    let s8 = s7 + if_inside(size, r + 1, c + 1);
    let k: int = if p == (r - 1, c - 1) {
        0
    } else if p == (r - 1, c) {
        s1.len() as int
    } else if p == (r - 1, c + 1) {
        s2.len() as int
    } else if p == (r, c - 1) {
        s3.len() as int
    } else if p == (r, c + 1) {
        s4.len() as int
    } else if p == (r + 1, c - 1) {
        s5.len() as int
    } else if p == (r + 1, c) {
        s6.len() as int
    } else {
        s7.len() as int
    };
    assert(s8[k] == p);
}

/// A cell has at most eight mined neighbours.
pub proof fn lemma_neighbor_mines_bound(cells: Seq<Seq<Cell>>, r: int, c: int)
    ensures
        neighbor_mines(cells, r, c) <= 8,
{
    reveal(neighbor_mines);
}

/// A cell with no mined neighbour has no mine on any cell that touches it.
pub proof fn lemma_no_mine_around(cells: Seq<Seq<Cell>>, r: int, c: int, i: int, j: int)
    requires
        neighbor_mines(cells, r, c) == 0,
        adjacent(r, c, i, j),
    ensures
        mine_at(cells, i, j) == 0,
{
    reveal(neighbor_mines);
}

/// The number of mined neighbours depends on where the mines are and on
/// nothing else.
pub proof fn lemma_neighbor_mines_same(a: Seq<Seq<Cell>>, b: Seq<Seq<Cell>>, r: int, c: int)
    requires
        forall|i: int, j: int| mine_at(a, i, j) == mine_at(b, i, j),
    ensures
        neighbor_mines(a, r, c) == neighbor_mines(b, r, c),
{
    reveal(neighbor_mines);
}

} // verus!
