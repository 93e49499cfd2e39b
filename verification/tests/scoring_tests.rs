use azool::player::Player;
use azool::scoring::finalize_score;
use azool::wall::{get_col_idx, Wall};
use azool::TileColor;

fn wall_from(cells: [[bool; 5]; 5]) -> Wall {
    let mut w = Wall::new();
    for r in 0..5 {
        for c in 0..5 {
            if cells[r][c] {
                w.set_cell(r, c);
            }
        }
    }
    w
}

#[test]
fn test_tile_score() {
    let mut arr = [[false; 5]; 5];
    arr[1][1] = true;
    arr[2][2] = true;
    arr[2][1] = true;
    arr[2][3] = true;
    arr[1][3] = true;
    let grid = wall_from(arr);
    let score = Player::score_tile(&grid, &2, &1);
    assert_eq!(score, 5);
}

#[test]
fn test_score_bonuses() {
    let mut arr = [[false; 5]; 5];
    for idx in 0..5 {
        // setting row 1 and col 1
        arr[idx][1] = true;
        arr[1][idx] = true;
        // setting all blues
        let blue_col_idx = get_col_idx(idx, TileColor::BLUE);
        arr[idx][blue_col_idx] = true;
    }
    // these shouldn't impact the bonus
    arr[0][0] = true;
    arr[0][3] = true;
    arr[4][4] = true;
    assert_eq!(finalize_score(&wall_from(arr)), 19);
    // removes row and column bonuses
    arr[1][1] = false;
    assert_eq!(finalize_score(&wall_from(arr)), 10);
}

#[test]
fn isolated_tile_scores_one() {
    let mut arr = [[false; 5]; 5];
    arr[2][2] = true;
    let grid = wall_from(arr);
    assert_eq!(Player::score_tile(&grid, &2, &2), 1);
}

#[test]
fn row_run_of_three_scores_three() {
    let mut arr = [[false; 5]; 5];
    arr[0][0] = true;
    arr[0][1] = true;
    arr[0][2] = true;
    let grid = wall_from(arr);
    assert_eq!(Player::score_tile(&grid, &0, &2), 3);
}

#[test]
fn joining_two_runs_scores_their_sum() {
    let mut arr = [[false; 5]; 5];
    arr[1][1] = true;
    arr[1][2] = true;
    arr[0][2] = true;
    let grid = wall_from(arr);
    assert_eq!(Player::score_tile(&grid, &1, &2), 4);
}

#[test]
fn penalty_table_values() {
    assert_eq!(Player::get_score_penalty(&0), 0);
    assert_eq!(Player::get_score_penalty(&1), 1);
    assert_eq!(Player::get_score_penalty(&2), 2);
    assert_eq!(Player::get_score_penalty(&3), 3);
    assert_eq!(Player::get_score_penalty(&4), 5);
    assert_eq!(Player::get_score_penalty(&5), 7);
    assert_eq!(Player::get_score_penalty(&6), 10);
    assert_eq!(Player::get_score_penalty(&7), 13);
    assert_eq!(Player::get_score_penalty(&8), 15);
    assert_eq!(Player::get_score_penalty(&12), 15);
}

#[test]
fn bonus_one_row_one_col_no_color() {
    let mut arr = [[false; 5]; 5];
    for idx in 0..5 {
        arr[0][idx] = true;
        arr[idx][3] = true;
    }
    // one full row, one full column, no completed color: 2 + 7
    assert_eq!(finalize_score(&wall_from(arr)), 9);
}

#[test]
fn bonus_empty_wall_is_zero() {
    let arr = [[false; 5]; 5];
    assert_eq!(finalize_score(&wall_from(arr)), 0);
}

#[test]
fn col_idx_is_a_permutation() {
    // each row admits each color exactly once, each column likewise
    for row in 0..5 {
        let mut seen = [false; 5];
        for ci in 0..5 {
            let col = get_col_idx(row, TileColor::from_integer(ci as i32));
            assert!(!seen[col]);
            seen[col] = true;
        }
    }
    assert_eq!(get_col_idx(0, TileColor::RED), 0);
    assert_eq!(get_col_idx(2, TileColor::BLUE), 3);
}
