use azool::player::Player;
use azool::wall::get_col_idx;
use azool::{GameBoard, InvalidMoveError, TileColor};

#[test]
fn fresh_player_is_empty() {
    let p = Player::new(1);
    assert_eq!(p.my_score, 0);
    assert_eq!(p.my_num_penalties_for_round, 0);
    assert!(!p.took_penalty());
    assert_eq!(p.my_player_id, 1);
    for r in 0..5 {
        assert_eq!(p.my_rows[r], (0, TileColor::NOCOLOR));
        for c in 0..5 {
            assert!(!p.my_grid.get(r, c));
        }
    }
}

#[test]
fn check_valid_move_rejects_the_sentinel() {
    let p = Player::new(1);
    let r = p.check_valid_move(TileColor::NOCOLOR, 0);
    assert!(matches!(r, Err(InvalidMoveError::BadColorError)));
}

#[test]
fn check_valid_move_rules() {
    let mut p = Player::new(1);
    assert_eq!(p.check_valid_move(TileColor::RED, 2).unwrap(), true);
    // a different color on the line makes the move invalid
    p.place_tiles(2, TileColor::BLUE, 1);
    assert_eq!(p.check_valid_move(TileColor::RED, 2).unwrap(), false);
    assert_eq!(p.check_valid_move(TileColor::BLUE, 2).unwrap(), true);
    // a wall cell already set for (row, color) makes the move invalid
    let col = get_col_idx(3, TileColor::GREEN);
    p.my_grid.set_cell(3, col);
    assert_eq!(p.check_valid_move(TileColor::GREEN, 3).unwrap(), false);
    assert_eq!(p.check_valid_move(TileColor::YELLOW, 3).unwrap(), true);
}

#[test]
fn place_tiles_clamps_and_accrues_penalties() {
    let mut p = Player::new(1);
    p.place_tiles(1, TileColor::GREEN, 1);
    assert_eq!(p.my_rows[1], (1, TileColor::GREEN));
    assert_eq!(p.my_num_penalties_for_round, 0);
    p.place_tiles(1, TileColor::GREEN, 3);
    // capacity of row 1 is 2: two excess tiles become penalties
    assert_eq!(p.my_rows[1], (2, TileColor::GREEN));
    assert_eq!(p.my_num_penalties_for_round, 2);
}

#[test]
fn end_round_places_and_scores_completed_lines() {
    let mut p = Player::new(1);
    p.place_tiles(0, TileColor::RED, 1);
    p.place_tiles(1, TileColor::BLUE, 2);
    p.place_tiles(2, TileColor::GREEN, 1);  // incomplete, stays
    let game_over = p.end_round_and_return_full_row();
    assert!(!game_over);
    assert!(p.my_grid.get(0, get_col_idx(0, TileColor::RED)));
    assert!(p.my_grid.get(1, get_col_idx(1, TileColor::BLUE)));
    assert_eq!(p.my_rows[0], (0, TileColor::NOCOLOR));
    assert_eq!(p.my_rows[1], (0, TileColor::NOCOLOR));
    assert_eq!(p.my_rows[2], (1, TileColor::GREEN));
    // red lands at (0,0), blue at (1,2): both isolated, one point each
    assert_eq!(p.my_score, 2);
    assert_eq!(p.my_num_penalties_for_round, 0);
}

#[test]
fn end_round_deducts_penalties_and_floors_at_zero() {
    // the end-to-end drafting scenario: four tiles of one color land on
    // pattern line 0, whose capacity is 1
    let mut p = Player::new(1);
    assert_eq!(p.check_valid_move(TileColor::BLUE, 0).unwrap(), true);
    p.place_tiles(0, TileColor::BLUE, 4);
    assert_eq!(p.my_rows[0], (1, TileColor::BLUE));
    assert_eq!(p.my_num_penalties_for_round, 3);
    let game_over = p.end_round_and_return_full_row();
    assert!(!game_over);
    // exactly one tile on the wall; 1 point earned, 3 deducted, floored at 0
    assert!(p.my_grid.get(0, get_col_idx(0, TileColor::BLUE)));
    let set_cells: usize = (0..5)
        .map(|r| (0..5).filter(|c| p.my_grid.get(r, *c)).count())
        .sum();
    assert_eq!(set_cells, 1);
    assert_eq!(p.my_score, 0);
    assert_eq!(p.my_num_penalties_for_round, 0);
    assert!(!p.took_penalty());
}

#[test]
fn end_round_reports_a_completed_wall_row() {
    let mut p = Player::new(1);
    // fill row 0 with every color over five rounds
    for ci in 0..5 {
        let color = TileColor::from_integer(ci as i32);
        p.place_tiles(0, color, 1);
        let game_over = p.end_round_and_return_full_row();
        assert_eq!(game_over, ci == 4);
    }
}

#[test]
fn pool_penalty_flag_and_discard_penalties() {
    let mut p = Player::new(1);
    p.mark_pool_penalty();
    assert!(p.took_penalty());
    p.add_penalties(2);
    assert_eq!(p.my_num_penalties_for_round, 2);
    p.end_round_and_return_full_row();
    assert!(!p.took_penalty());
    assert_eq!(p.my_num_penalties_for_round, 0);
}

#[test]
fn two_player_round_scenario() {
    // a fresh two-player game: player 1 drafts from display 0, player 2
    // from the pool, and the round resolves both boards
    let mut gb = GameBoard::new();
    let mut p1 = Player::new(1);
    let mut p2 = Player::new(2);
    let ci = (0..5).find(|ci| gb.tile_factories[0][*ci] > 0).unwrap();
    let color = TileColor::from_integer(ci as i32);
    assert_eq!(p1.check_valid_move(color, 0).unwrap(), true);
    let drawn = gb.take_tiles_from_factory(0, &color).unwrap();
    p1.place_tiles(0, color, drawn);
    assert_eq!(p1.my_rows[0].0, 1);
    assert_eq!(p1.my_num_penalties_for_round, drawn - 1);

    if let Some(pci) = (0..5).find(|pci| gb.tile_pool[*pci] > 0) {
        let pcolor = TileColor::from_integer(pci as i32);
        assert_eq!(p2.check_valid_move(pcolor, 4).unwrap(), true);
        let n = gb.take_tiles_from_pool(&pcolor).unwrap();
        if gb.white_tile_in_pool {
            gb.white_tile_in_pool = false;
            p2.mark_pool_penalty();
        }
        p2.place_tiles(4, pcolor, n);
        assert!(p2.took_penalty());
    }

    let over1 = p1.end_round_and_return_full_row();
    let over2 = p2.end_round_and_return_full_row();
    assert!(!over1 && !over2);
    assert!(p1.my_grid.get(0, get_col_idx(0, color)));
    assert!(!p1.took_penalty());
    assert_eq!(p1.my_num_penalties_for_round, 0);
}
