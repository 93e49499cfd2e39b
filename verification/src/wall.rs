//! The 5x5 wall grid: a boolean occupancy grid, row-major, together with the
//! fixed diagonal permutation that assigns each (row, color) pair its column.

use vstd::prelude::*;

use crate::color::{color_index, TileColor};

verus! {

/// Reads one cell of a row-major 5x5 grid.
pub open spec fn grid_cell(g: Seq<bool>, row: int, col: int) -> bool {
    g[row * 5 + col]
}

/// A player's permanent 5x5 placement grid. Cells are set when a completed
/// pattern line is flushed, and are never unset.
#[derive(Debug)]
pub struct Wall {
    pub cells: Vec<bool>,
}

impl View for Wall {
    type V = Seq<bool>;

    open spec fn view(&self) -> Seq<bool> {
        self.cells@
    }
}

impl Wall {
    /// A well-formed wall holds exactly the 25 cells of the 5x5 grid.
    pub open spec fn wf(self) -> bool {
        self@.len() == 25
    }

    /// An empty wall: no cell set.
    pub fn new() -> (w: Wall)
        ensures
            w.wf(),
            forall|i: int| 0 <= i < 25 ==> !w@[i],
    {
        let mut cells: Vec<bool> = Vec::new();
        let mut i: usize = 0;
        while i < 25
            invariant
                i <= 25,
                cells@.len() == i,
                forall|j: int| 0 <= j < i ==> !cells@[j],
            decreases 25 - i,
        {
            cells.push(false);
            i = i + 1;
        }
        Wall { cells }
    }

    /// Reads the cell at (row, col).
    pub fn get(&self, row: usize, col: usize) -> (b: bool)
        requires
            self.wf(),
            row < 5,
            col < 5,
        ensures
            b == grid_cell(self@, row as int, col as int),
    {
        self.cells[row * 5 + col]
    }

    /// Sets the cell at (row, col).
    pub fn set_cell(&mut self, row: usize, col: usize)
        requires
            old(self).wf(),
            row < 5,
            col < 5,
        ensures
            final(self).wf(),
            final(self)@ == old(self)@.update(row * 5 + col, true),
    {
        self.cells[row * 5 + col] = true;
    }
}

/// Number of set cells among the first `k` cells of a grid.
pub open spec fn grid_set_count(g: Seq<bool>, k: int) -> int
    decreases k,
{
    if k <= 0 {
        0
    } else {
        grid_set_count(g, k - 1) + if g[k - 1] {
            1int
        } else {
            0int
        }
    }
}

/// Setting one unset cell raises the set-cell count by exactly one.
pub proof fn lemma_grid_set_count_update(g: Seq<bool>, i: int, k: int)
    requires
        0 <= i < g.len(),
        i < k <= g.len(),
        !g[i],
    ensures
        grid_set_count(g.update(i, true), k) == grid_set_count(g, k) + 1,
    decreases k,
{
    let g2 = g.update(i, true);
    if k - 1 == i {
        lemma_grid_set_count_same(g, g2, i);
    } else {
        lemma_grid_set_count_update(g, i, k - 1);
    }
}

/// Two grids that agree on their first `k` cells have the same set-cell
/// count there.
pub proof fn lemma_grid_set_count_same(g1: Seq<bool>, g2: Seq<bool>, k: int)
    requires
        forall|j: int| 0 <= j < k ==> g1[j] == g2[j],
    ensures
        grid_set_count(g1, k) == grid_set_count(g2, k),
    decreases k,
{
    if k > 0 {
        lemma_grid_set_count_same(g1, g2, k - 1);
    }
}

/// The set-cell count of the first `k` cells is at most `k`.
pub proof fn lemma_grid_set_count_bound(g: Seq<bool>, k: int)
    ensures
        0 <= grid_set_count(g, k) <= if k <= 0 {
            0int
        } else {
            k
        },
    decreases k,
{
    if k > 0 {
        lemma_grid_set_count_bound(g, k - 1);
    }
}

/// The column that a tile of color `c` occupies on wall row `r`: a fixed
/// diagonal permutation, so that each row admits each color exactly once and
/// each column likewise.
pub open spec fn spec_col_idx(row: int, c: TileColor) -> int {
    (5 + color_index(c) + row) % 5
}

/// Computes the wall column for (row, color) by the fixed diagonal
/// permutation.
pub fn get_col_idx(row_idx: usize, color: TileColor) -> (col: usize)
    requires
        row_idx < 5,
    ensures
        col == spec_col_idx(row_idx as int, color),
        col < 5,
{
    let ord: usize = match color {
        TileColor::RED => 0,
        TileColor::BLUE => 1,
        TileColor::GREEN => 2,
        TileColor::YELLOW => 3,
        TileColor::WHITE => 4,
        TileColor::NOCOLOR => 5,
    };
    (5 + ord + row_idx) % 5
}

} // verus!
