//! A player's private board: five pattern lines, the wall grid, the running
//! score, and the per-round penalty counter, together with placement
//! validation, tile placement, adjacency scoring and end-of-round
//! resolution.

use vstd::prelude::*;

use crate::color::{is_drawable, TileColor};
use crate::messages::InvalidMoveError;
use crate::scoring::{
    full_row, lemma_down_run_chain, lemma_left_run_chain, lemma_right_run_chain,
    lemma_up_run_chain, spec_penalty, spec_tile_score,
};
use crate::wall::{
    get_col_idx, grid_cell, grid_set_count, lemma_grid_set_count_bound,
    lemma_grid_set_count_update, spec_col_idx, Wall,
};

verus! {

/// One player's private state. The wall and score persist for the whole
/// game; the penalty counter and the pool-penalty flag are cleared each
/// round; a pattern line is cleared when it completes.
#[derive(Debug)]
pub struct Player {
    pub my_score: i32,
    pub my_num_penalties_for_round: usize,
    pub my_took_pool_penalty_this_round: bool,
    pub my_grid: Wall,
    pub my_rows: Vec<(usize, TileColor)>,
    pub my_player_id: u8,
}

/// The end-of-round resolution of pattern lines `0..k`, in row order: every
/// line that reached its capacity places one tile on the wall at the fixed
/// permutation column, earns the adjacency score of that cell as placed,
/// and is cleared. Yields the wall, the pattern lines and the score after
/// those `k` rows.
pub open spec fn spec_resolve_upto(
    g: Seq<bool>,
    rows: Seq<(usize, TileColor)>,
    score: int,
    k: int,
) -> (Seq<bool>, Seq<(usize, TileColor)>, int)
    decreases k,
{
    if k <= 0 {
        (g, rows, score)
    } else {
        let prev = spec_resolve_upto(g, rows, score, k - 1);
        let r = k - 1;
        if prev.1[r].0 == r + 1 {
            let c = spec_col_idx(r, prev.1[r].1);
            let g2 = prev.0.update(r * 5 + c, true);
            (
                g2,
                prev.1.update(r, (0usize, TileColor::NOCOLOR)),
                prev.2 + spec_tile_score(g2, r, c),
            )
        } else {
            prev
        }
    }
}

/// Pattern line `r` holds a valid (count, color) pair: count within the
/// row's capacity `r + 1`, the color `NOCOLOR` exactly when the line is
/// empty, and a non-empty line aimed at a wall cell that is still unset.
pub open spec fn row_ok(g: Seq<bool>, rows: Seq<(usize, TileColor)>, r: int) -> bool {
    &&& rows[r].0 <= r + 1
    &&& (rows[r].1 == TileColor::NOCOLOR <==> rows[r].0 == 0)
    &&& (rows[r].0 > 0 ==> is_drawable(rows[r].1) && !grid_cell(
        g,
        r,
        spec_col_idx(r, rows[r].1),
    ))
}

impl Player {
    /// Well-formedness: a 5x5 wall, five valid pattern lines, and a score
    /// that never exceeds ten points per wall tile (the largest score a
    /// single placement can earn).
    pub open spec fn wf(self) -> bool {
        &&& self.my_grid.wf()
        &&& self.my_rows@.len() == 5
        &&& forall|r: int| 0 <= r < 5 ==> row_ok(self.my_grid@, self.my_rows@, r)
        &&& 0 <= self.my_score <= 10 * grid_set_count(self.my_grid@, 25)
    }

    /// A fresh player board: empty wall, empty pattern lines, zero score.
    pub fn new(my_player_id: u8) -> (p: Player)
        ensures
            p.wf(),
            p.my_score == 0,
            p.my_num_penalties_for_round == 0,
            !p.my_took_pool_penalty_this_round,
            forall|i: int| 0 <= i < 25 ==> !p.my_grid@[i],
            forall|r: int| 0 <= r < 5 ==> p.my_rows@[r] == (0usize, TileColor::NOCOLOR),
            p.my_player_id == my_player_id,
    {
        let mut rows: Vec<(usize, TileColor)> = Vec::new();
        let mut i: usize = 0;
        while i < 5
            invariant
                i <= 5,
                rows@.len() == i,
                forall|r: int| 0 <= r < i ==> rows@[r] == (0usize, TileColor::NOCOLOR),
            decreases 5 - i,
        {
            rows.push((0, TileColor::NOCOLOR));
            i = i + 1;
        }
        let grid = Wall::new();
        proof {
            lemma_grid_set_count_bound(grid@, 25);
        }
        Player {
            my_score: 0,
            my_num_penalties_for_round: 0,
            my_took_pool_penalty_this_round: false,
            my_grid: grid,
            my_rows: rows,
            my_player_id,
        }
    }

    /// Whether `count` tiles of `color` may be staged on pattern line
    /// `row_idx`: fails with `BadColorError` on the sentinel; otherwise
    /// false (not an error) if the wall cell for (row, color) is already
    /// set, or the line already holds a different color.
    pub fn check_valid_move(&self, color: TileColor, row_idx: usize) -> (r: Result<
        bool,
        InvalidMoveError,
    >)
        requires
            self.wf(),
            row_idx < 5,
        ensures
            r is Err <==> color == TileColor::NOCOLOR,
            r is Err ==> r == Err::<bool, InvalidMoveError>(InvalidMoveError::BadColorError),
            r is Ok ==> r == Ok::<bool, InvalidMoveError>(
                !grid_cell(self.my_grid@, row_idx as int, spec_col_idx(row_idx as int, color))
                    && (self.my_rows@[row_idx as int].1 == color
                    || self.my_rows@[row_idx as int].1 == TileColor::NOCOLOR),
            ),
    {
        if color == TileColor::NOCOLOR {
            return Err(InvalidMoveError::BadColorError);
        }
        let col_idx = get_col_idx(row_idx, color);
        if self.my_grid.get(row_idx, col_idx) {
            return Ok(false);
        }
        let line_color = self.my_rows[row_idx].1;
        if !(line_color == color || line_color == TileColor::NOCOLOR) {
            return Ok(false);
        }
        Ok(true)
    }

    /// Stages `num_tiles` tiles of `color` on pattern line `row_idx`; any
    /// excess over the line's capacity `row_idx + 1` is converted into
    /// penalties and the line clamped to capacity. The placement must have
    /// passed `check_valid_move`.
    pub fn place_tiles(&mut self, row_idx: usize, color: TileColor, num_tiles: usize)
        requires
            old(self).wf(),
            row_idx < 5,
            is_drawable(color),
            num_tiles >= 1,
            !grid_cell(
                old(self).my_grid@,
                row_idx as int,
                spec_col_idx(row_idx as int, color),
            ),
            old(self).my_rows@[row_idx as int].1 == color || old(self).my_rows@[row_idx
                as int].1 == TileColor::NOCOLOR,
            old(self).my_num_penalties_for_round + num_tiles <= usize::MAX - 5,
        ensures
            final(self).wf(),
            ({
                let total = old(self).my_rows@[row_idx as int].0 + num_tiles;
                let cap = row_idx + 1;
                let kept = if total > cap {
                    cap as int
                } else {
                    total
                };
                &&& final(self).my_rows@ == old(self).my_rows@.update(
                    row_idx as int,
                    (kept as usize, color),
                )
                &&& final(self).my_num_penalties_for_round
                    == old(self).my_num_penalties_for_round + if total > cap {
                    total - cap
                } else {
                    0int
                }
            }),
            final(self).my_grid == old(self).my_grid,
            final(self).my_score == old(self).my_score,
            final(self).my_took_pool_penalty_this_round == old(self).my_took_pool_penalty_this_round,
            final(self).my_player_id == old(self).my_player_id,
    {
        proof {
            assert(row_ok(self.my_grid@, self.my_rows@, row_idx as int));
        }
        let (count, _) = self.my_rows[row_idx];
        let new_count = count + num_tiles;
        let max_num_in_row = row_idx + 1;
        if new_count > max_num_in_row {
            self.my_num_penalties_for_round = self.my_num_penalties_for_round + (new_count
                - max_num_in_row);
            self.my_rows[row_idx] = (max_num_in_row, color);
        } else {
            self.my_rows[row_idx] = (new_count, color);
        }
        proof {
            assert forall|r: int| 0 <= r < 5 implies row_ok(self.my_grid@, self.my_rows@, r) by {
                if r != row_idx as int {
                    assert(row_ok(old(self).my_grid@, old(self).my_rows@, r));
                    assert(self.my_rows@[r] == old(self).my_rows@[r]);
                }
            }
        }
    }

    /// Records that this player drew the first-player marker from the pool
    /// this round.
    pub fn mark_pool_penalty(&mut self)
        requires
            old(self).wf(),
        ensures
            final(self).wf(),
            final(self).my_took_pool_penalty_this_round,
            final(self).my_score == old(self).my_score,
            final(self).my_grid == old(self).my_grid,
            final(self).my_rows == old(self).my_rows,
            final(self).my_num_penalties_for_round == old(self).my_num_penalties_for_round,
            final(self).my_player_id == old(self).my_player_id,
    {
        self.my_took_pool_penalty_this_round = true;
    }

    /// Adds `num_tiles` discarded tiles to the per-round penalty counter.
    pub fn add_penalties(&mut self, num_tiles: usize)
        requires
            old(self).wf(),
            old(self).my_num_penalties_for_round + num_tiles <= usize::MAX,
        ensures
            final(self).wf(),
            final(self).my_num_penalties_for_round == old(self).my_num_penalties_for_round
                + num_tiles,
            final(self).my_score == old(self).my_score,
            final(self).my_grid == old(self).my_grid,
            final(self).my_rows == old(self).my_rows,
            final(self).my_took_pool_penalty_this_round == old(self).my_took_pool_penalty_this_round,
            final(self).my_player_id == old(self).my_player_id,
    {
        self.my_num_penalties_for_round = self.my_num_penalties_for_round + num_tiles;
    }

    /// Whether this player took the first-player marker this round.
    pub fn took_penalty(&self) -> (r: bool)
        ensures
            r == self.my_took_pool_penalty_this_round,
    {
        self.my_took_pool_penalty_this_round
    }

    /// The adjacency score of the tile at (tile_row, tile_col): the lengths
    /// of the horizontal and vertical runs through the cell, summed; a tile
    /// isolated in either axis scores only its longer run.
    pub fn score_tile(grid: &Wall, tile_row: &usize, tile_col: &usize) -> (score: i32)
        requires
            grid.wf(),
            *tile_row < 5,
            *tile_col < 5,
        ensures
            score == spec_tile_score(grid@, *tile_row as int, *tile_col as int),
            0 <= score <= 10,
    {
        let row = *tile_row;
        let col = *tile_col;
        // scan left from the placed cell
        let mut j: usize = col;
        while j > 0 && grid.get(row, j - 1)
            invariant
                grid.wf(),
                row < 5,
                col < 5,
                j <= col,
                forall|k: int| j <= k < col ==> grid_cell(grid@, row as int, k),
            decreases j,
        {
            j = j - 1;
        }
        let left: usize = col - j;
        proof {
            lemma_left_run_chain(grid@, row as int, j as int, col as int);
        }
        // scan right, the placed cell included
        let mut m: usize = col;
        while m < 5 && grid.get(row, m)
            invariant
                grid.wf(),
                row < 5,
                col <= m <= 5,
                forall|k: int| col <= k < m ==> grid_cell(grid@, row as int, k),
            decreases 5 - m,
        {
            m = m + 1;
        }
        let right: usize = m - col;
        proof {
            lemma_right_run_chain(grid@, row as int, m as int, col as int);
        }
        let row_score: i32 = (left + right) as i32;
        // scan up from the placed cell
        let mut u: usize = row;
        while u > 0 && grid.get(u - 1, col)
            invariant
                grid.wf(),
                row < 5,
                col < 5,
                u <= row,
                forall|k: int| u <= k < row ==> grid_cell(grid@, k, col as int),
            decreases u,
        {
            u = u - 1;
        }
        let up: usize = row - u;
        proof {
            lemma_up_run_chain(grid@, row as int, u as int, col as int);
        }
        // scan down, the placed cell included
        let mut d: usize = row;
        while d < 5 && grid.get(d, col)
            invariant
                grid.wf(),
                col < 5,
                row <= d <= 5,
                forall|k: int| row <= k < d ==> grid_cell(grid@, k, col as int),
            decreases 5 - d,
        {
            d = d + 1;
        }
        let down: usize = d - row;
        proof {
            lemma_down_run_chain(grid@, row as int, d as int, col as int);
        }
        let col_score: i32 = (up + down) as i32;
        if row_score == 1 || col_score == 1 {
            if row_score >= col_score {
                row_score
            } else {
                col_score
            }
        } else {
            row_score + col_score
        }
    }

    /// Resolves the round for this player: flushes every completed pattern
    /// line onto the wall in row order, scoring each placed tile by
    /// adjacency as it lands; then deducts the penalty-table value for the
    /// round's penalty counter, floors the score at zero, and clears the
    /// counter and the pool-penalty flag. Returns whether any wall row is
    /// now fully set, which triggers the end of the game.
    pub fn end_round_and_return_full_row(&mut self) -> (game_over: bool)
        requires
            old(self).wf(),
        ensures
            final(self).wf(),
            ({
                let resolved = spec_resolve_upto(
                    old(self).my_grid@,
                    old(self).my_rows@,
                    old(self).my_score as int,
                    5,
                );
                &&& final(self).my_grid@ == resolved.0
                &&& final(self).my_rows@ == resolved.1
                &&& final(self).my_score == ({
                    let s = resolved.2 - spec_penalty(
                        old(self).my_num_penalties_for_round as int,
                    );
                    if s < 0 {
                        0int
                    } else {
                        s
                    }
                })
            }),
            final(self).my_num_penalties_for_round == 0,
            !final(self).my_took_pool_penalty_this_round,
            final(self).my_player_id == old(self).my_player_id,
            game_over == exists|row: int| 0 <= row < 5 && full_row(final(self).my_grid@, row),
    {
        let ghost g0 = old(self).my_grid@;
        let ghost rows0 = old(self).my_rows@;
        let ghost s0 = old(self).my_score as int;
        let ghost pen0 = old(self).my_num_penalties_for_round;
        let ghost flag0 = old(self).my_took_pool_penalty_this_round;
        let ghost id0 = old(self).my_player_id;
        let mut row_idx: usize = 0;
        while row_idx < 5
            invariant
                self.wf(),
                row_idx <= 5,
                self.my_grid@ == spec_resolve_upto(g0, rows0, s0, row_idx as int).0,
                self.my_rows@ == spec_resolve_upto(g0, rows0, s0, row_idx as int).1,
                self.my_score == spec_resolve_upto(g0, rows0, s0, row_idx as int).2,
                self.my_num_penalties_for_round == pen0,
                self.my_took_pool_penalty_this_round == flag0,
                self.my_player_id == id0,
            decreases 5 - row_idx,
        {
            let (count, color) = self.my_rows[row_idx];
            if count == row_idx + 1 {
                proof {
                    assert(row_ok(self.my_grid@, self.my_rows@, row_idx as int));
                    lemma_grid_set_count_bound(self.my_grid@, 25);
                }
                let col = get_col_idx(row_idx, color);
                let ghost g_before = self.my_grid@;
                self.my_grid.set_cell(row_idx, col);
                proof {
                    lemma_grid_set_count_update(g_before, row_idx as int * 5 + col as int, 25);
                }
                let tile_score = Self::score_tile(&self.my_grid, &row_idx, &col);
                self.my_score = self.my_score + tile_score;
                self.my_rows[row_idx] = (0, TileColor::NOCOLOR);
                proof {
                    assert forall|r: int|
                        0 <= r < 5 implies row_ok(self.my_grid@, self.my_rows@, r) by {
                        if r != row_idx as int {
                            assert(row_ok(
                                g_before,
                                spec_resolve_upto(g0, rows0, s0, row_idx as int).1,
                                r,
                            ));
                            assert(self.my_rows@[r] == spec_resolve_upto(
                                g0,
                                rows0,
                                s0,
                                row_idx as int,
                            ).1[r]);
                        }
                    }
                }
            }
            row_idx = row_idx + 1;
            proof {
                assert(self.my_grid@ =~= spec_resolve_upto(g0, rows0, s0, row_idx as int).0);
                assert(self.my_rows@ =~= spec_resolve_upto(g0, rows0, s0, row_idx as int).1);
            }
        }
        let penalty: i32 = Self::penalty_for_count(self.my_num_penalties_for_round);
        if self.my_score >= penalty {
            self.my_score = self.my_score - penalty;
        } else {
            self.my_score = 0;
        }
        self.my_took_pool_penalty_this_round = false;
        self.my_num_penalties_for_round = 0;
        let mut game_over: bool = false;
        let mut row: usize = 0;
        while row < 5
            invariant
                self.my_grid.wf(),
                row <= 5,
                game_over == exists|r: int| 0 <= r < row && full_row(self.my_grid@, r),
            decreases 5 - row,
        {
            let mut all_set: bool = true;
            let mut col: usize = 0;
            while col < 5
                invariant
                    self.my_grid.wf(),
                    row < 5,
                    col <= 5,
                    all_set == forall|c: int| 0 <= c < col ==> grid_cell(self.my_grid@, row as int, c),
                decreases 5 - col,
            {
                if !self.my_grid.get(row, col) {
                    all_set = false;
                }
                col = col + 1;
            }
            if all_set {
                proof {
                    assert(full_row(self.my_grid@, row as int));
                }
                game_over = true;
            }
            row = row + 1;
        }
        game_over
    }

    /// The penalty-table deduction for a round's accumulated penalty count.
    fn penalty_for_count(n: usize) -> (r: i32)
        ensures
            r == spec_penalty(n as int),
    {
        if n >= 8 {
            15
        } else if n == 0 {
            0
        } else if n == 1 {
            1
        } else if n == 2 {
            2
        } else if n == 3 {
            3
        } else if n == 4 {
            5
        } else if n == 5 {
            7
        } else if n == 6 {
            10
        } else {
            13
        }
    }

    /// The penalty-table deduction for an accumulated penalty count.
    pub fn get_score_penalty(num_penalties_for_round: &i32) -> (r: i32)
        ensures
            r == spec_penalty(*num_penalties_for_round as int),
    {
        let n = *num_penalties_for_round;
        if n < 0 {
            15
        } else if n == 0 {
            0
        } else if n == 1 {
            1
        } else if n == 2 {
            2
        } else if n == 3 {
            3
        } else if n == 4 {
            5
        } else if n == 5 {
            7
        } else if n == 6 {
            10
        } else if n == 7 {
            13
        } else {
            15
        }
    }
}

} // verus!
