//! Pure scoring rules: adjacency runs around a placed tile, the fixed
//! penalty table, and the end-of-game bonus for full rows, full columns and
//! completed colors.

use vstd::prelude::*;

use crate::color::{color_of, TileColor};
use crate::wall::{grid_cell, spec_col_idx, Wall};

verus! {

/// Length of the contiguous run of set cells strictly to the left of `col`
/// on `row` (cells `col-1`, `col-2`, ... while set).
pub open spec fn left_run(g: Seq<bool>, row: int, col: int) -> int
    decreases col,
{
    if col <= 0 {
        0
    } else if grid_cell(g, row, col - 1) {
        1 + left_run(g, row, col - 1)
    } else {
        0
    }
}

/// Length of the contiguous run of set cells starting at `col` on `row` and
/// extending right (includes the cell at `col` itself, while set).
pub open spec fn right_run(g: Seq<bool>, row: int, col: int) -> int
    decreases 5 - col,
{
    if col >= 5 || !grid_cell(g, row, col) {
        0
    } else {
        1 + right_run(g, row, col + 1)
    }
}

/// Length of the contiguous run of set cells strictly above `row` in `col`.
pub open spec fn up_run(g: Seq<bool>, row: int, col: int) -> int
    decreases row,
{
    if row <= 0 {
        0
    } else if grid_cell(g, row - 1, col) {
        1 + up_run(g, row - 1, col)
    } else {
        0
    }
}

/// Length of the contiguous run of set cells starting at `row` in `col` and
/// extending down (includes the cell at `row` itself, while set).
pub open spec fn down_run(g: Seq<bool>, row: int, col: int) -> int
    decreases 5 - row,
{
    if row >= 5 || !grid_cell(g, row, col) {
        0
    } else {
        1 + down_run(g, row + 1, col)
    }
}

/// The horizontal run through (row, col), the placed cell counted once.
pub open spec fn row_run(g: Seq<bool>, row: int, col: int) -> int {
    left_run(g, row, col) + right_run(g, row, col)
}

/// The vertical run through (row, col), the placed cell counted once.
pub open spec fn col_run(g: Seq<bool>, row: int, col: int) -> int {
    up_run(g, row, col) + down_run(g, row, col)
}

/// The adjacency score of the tile at (row, col): a tile isolated in either
/// axis scores only its longer run; a tile joining both a horizontal and a
/// vertical run scores both runs' lengths.
pub open spec fn spec_tile_score(g: Seq<bool>, row: int, col: int) -> int {
    let r = row_run(g, row, col);
    let c = col_run(g, row, col);
    if r == 1 || c == 1 {
        if r >= c {
            r
        } else {
            c
        }
    } else {
        r + c
    }
}

/// A left scan that stopped at `j` has found the whole left run.
pub proof fn lemma_left_run_chain(g: Seq<bool>, row: int, j: int, col: int)
    requires
        0 <= j <= col,
        forall|k: int| j <= k < col ==> grid_cell(g, row, k),
        j == 0 || !grid_cell(g, row, j - 1),
    ensures
        left_run(g, row, col) == col - j,
    decreases col - j,
{
    if col > j {
        lemma_left_run_chain(g, row, j, col - 1);
    }
}

/// A right scan that stopped at `j` has found the whole right run.
pub proof fn lemma_right_run_chain(g: Seq<bool>, row: int, j: int, col: int)
    requires
        0 <= col <= j <= 5,
        forall|k: int| col <= k < j ==> grid_cell(g, row, k),
        j == 5 || !grid_cell(g, row, j),
    ensures
        right_run(g, row, col) == j - col,
    decreases j - col,
{
    if col < j {
        lemma_right_run_chain(g, row, j, col + 1);
    }
}

/// An upward scan that stopped at `j` has found the whole upward run.
pub proof fn lemma_up_run_chain(g: Seq<bool>, row: int, j: int, col: int)
    requires
        0 <= j <= row,
        forall|k: int| j <= k < row ==> grid_cell(g, k, col),
        j == 0 || !grid_cell(g, j - 1, col),
    ensures
        up_run(g, row, col) == row - j,
    decreases row - j,
{
    if row > j {
        lemma_up_run_chain(g, row - 1, j, col);
    }
}

/// A downward scan that stopped at `j` has found the whole downward run.
pub proof fn lemma_down_run_chain(g: Seq<bool>, row: int, j: int, col: int)
    requires
        0 <= row <= j <= 5,
        forall|k: int| row <= k < j ==> grid_cell(g, k, col),
        j == 5 || !grid_cell(g, j, col),
    ensures
        down_run(g, row, col) == j - row,
    decreases j - row,
{
    if row < j {
        lemma_down_run_chain(g, row + 1, j, col);
    }
}

/// The fixed, monotonically non-decreasing penalty table
/// 0, 1, 2, 3, 5, 7, 10, 13, 15, indexed by the accumulated penalty count
/// and capped at its last entry.
pub open spec fn spec_penalty(n: int) -> int {
    if n <= 0 {
        if n < 0 {
            15
        } else {
            0
        }
    } else if n == 1 {
        1
    } else if n == 2 {
        2
    } else if n == 3 {
        3
    } else if n == 4 {
        5
    } else if n == 5 {
        7
    } else if n == 6 {
        10
    } else if n == 7 {
        13
    } else {
        15
    }
}

/// Row `row` of the wall is fully set.
pub open spec fn full_row(g: Seq<bool>, row: int) -> bool {
    forall|c: int| 0 <= c < 5 ==> grid_cell(g, row, c)
}

/// Column `col` of the wall is fully set.
pub open spec fn full_col(g: Seq<bool>, col: int) -> bool {
    forall|r: int| 0 <= r < 5 ==> grid_cell(g, r, col)
}

/// All five permutation cells of color `c` are set.
pub open spec fn full_color(g: Seq<bool>, c: TileColor) -> bool {
    forall|r: int| 0 <= r < 5 ==> grid_cell(g, r, spec_col_idx(r, c))
}

/// Number of fully set rows among rows `0..k`.
pub open spec fn count_full_rows(g: Seq<bool>, k: int) -> int
    decreases k,
{
    if k <= 0 {
        0
    } else {
        count_full_rows(g, k - 1) + if full_row(g, k - 1) {
            1int
        } else {
            0int
        }
    }
}

/// Number of fully set columns among columns `0..k`.
pub open spec fn count_full_cols(g: Seq<bool>, k: int) -> int
    decreases k,
{
    if k <= 0 {
        0
    } else {
        count_full_cols(g, k - 1) + if full_col(g, k - 1) {
            1int
        } else {
            0int
        }
    }
}

/// Number of completed colors among those with encodings `0..k`.
pub open spec fn count_full_colors(g: Seq<bool>, k: int) -> int
    decreases k,
{
    if k <= 0 {
        0
    } else {
        count_full_colors(g, k - 1) + if full_color(g, color_of(k - 1)) {
            1int
        } else {
            0int
        }
    }
}

/// The end-of-game bonus: 2 points per full row, 7 per full column, 10 per
/// completed color.
pub open spec fn spec_finalize_score(g: Seq<bool>) -> int {
    2 * count_full_rows(g, 5) + 7 * count_full_cols(g, 5) + 10 * count_full_colors(g, 5)
}

/// Computes the end-of-game bonus of a wall: 2 points for each fully set
/// row, 7 for each fully set column, and 10 for each color whose five
/// permutation cells are all set.
pub fn finalize_score(grid: &Wall) -> (bonus: i32)
    requires
        grid.wf(),
    ensures
        bonus == spec_finalize_score(grid@),
        0 <= bonus <= 95,
{
    let mut num_rows: i32 = 0;
    let mut row: usize = 0;
    while row < 5
        invariant
            grid.wf(),
            row <= 5,
            0 <= num_rows <= row,
            num_rows == count_full_rows(grid@, row as int),
        decreases 5 - row,
    {
        let mut all_set: bool = true;
        let mut col: usize = 0;
        while col < 5
            invariant
                grid.wf(),
                row < 5,
                col <= 5,
                all_set == forall|c: int| 0 <= c < col ==> grid_cell(grid@, row as int, c),
            decreases 5 - col,
        {
            if !grid.get(row, col) {
                all_set = false;
            }
            col = col + 1;
        }
        if all_set {
            num_rows = num_rows + 1;
        }
        row = row + 1;
    }
    let mut num_cols: i32 = 0;
    let mut col: usize = 0;
    while col < 5
        invariant
            grid.wf(),
            col <= 5,
            0 <= num_cols <= col,
            num_cols == count_full_cols(grid@, col as int),
        decreases 5 - col,
    {
        let mut all_set: bool = true;
        let mut row: usize = 0;
        while row < 5
            invariant
                grid.wf(),
                col < 5,
                row <= 5,
                all_set == forall|r: int| 0 <= r < row ==> grid_cell(grid@, r, col as int),
            decreases 5 - row,
        {
            if !grid.get(row, col) {
                all_set = false;
            }
            row = row + 1;
        }
        if all_set {
            num_cols = num_cols + 1;
        }
        col = col + 1;
    }
    let mut num_fives: i32 = 0;
    let mut ci: usize = 0;
    while ci < 5
        invariant
            grid.wf(),
            ci <= 5,
            0 <= num_fives <= ci,
            num_fives == count_full_colors(grid@, ci as int),
        decreases 5 - ci,
    {
        let color = TileColor::from_integer(ci as i32);
        proof {
            assert(color == color_of(ci as int));
        }
        let mut all_set: bool = true;
        let mut row: usize = 0;
        while row < 5
            invariant
                grid.wf(),
                ci < 5,
                row <= 5,
                color == color_of(ci as int),
                all_set == forall|r: int|
                    0 <= r < row ==> grid_cell(grid@, r, spec_col_idx(r, color)),
            decreases 5 - row,
        {
            let c = crate::wall::get_col_idx(row, color);
            if !grid.get(row, c) {
                all_set = false;
            }
            row = row + 1;
        }
        if all_set {
            num_fives = num_fives + 1;
        }
        ci = ci + 1;
    }
    2 * num_rows + 7 * num_cols + 10 * num_fives
}

} // verus!
