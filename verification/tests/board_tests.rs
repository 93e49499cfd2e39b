use azool::messages::{AzoolRequest, AzoolRequestType, AzoolResponse};
use azool::{GameBoard, InvalidMoveError, TileColor};

fn board_color_count(gb: &GameBoard, ci: usize) -> usize {
    let color = TileColor::from_integer(ci as i32);
    let in_bag = gb.tile_bag.iter().filter(|t| **t == color).count();
    let in_pool = gb.tile_pool[ci];
    let in_factories: usize = gb.tile_factories.iter().map(|f| f[ci]).sum();
    in_bag + in_pool + in_factories
}

fn board_total(gb: &GameBoard) -> usize {
    (0..5).map(|ci| board_color_count(gb, ci)).sum()
}

#[test]
fn fresh_board_holds_100_tiles() {
    let gb = GameBoard::new();
    assert_eq!(gb.tile_factories.len(), 5);
    for f in &gb.tile_factories {
        assert_eq!(f.iter().sum::<usize>(), 4);
    }
    assert_eq!(gb.tile_bag.len(), 80);
    for ci in 0..5 {
        assert_eq!(gb.tile_pool[ci], 0);
        assert_eq!(board_color_count(&gb, ci), 20);
    }
    assert_eq!(board_total(&gb), 100);
    assert!(gb.white_tile_in_pool);
    assert!(!gb.end_of_round());
}

#[test]
fn factory_draw_conserves_tiles() {
    let mut gb = GameBoard::new();
    let ci = (0..5).find(|ci| gb.tile_factories[0][*ci] > 0).unwrap();
    let color = TileColor::from_integer(ci as i32);
    let expected = gb.tile_factories[0][ci];
    let before_total = board_total(&gb);
    let drawn = gb.take_tiles_from_factory(0, &color).unwrap();
    assert_eq!(drawn, expected);
    assert_eq!(gb.tile_factories.len(), 4);
    // the drawn tiles left the board; every other tile is still on it
    assert_eq!(board_total(&gb), before_total - drawn);
    for other in 0..5 {
        if other != ci {
            assert_eq!(board_color_count(&gb, other), 20);
        }
    }
    assert_eq!(board_color_count(&gb, ci), 20 - drawn);
}

#[test]
fn invalid_factory_draw_is_rejected() {
    let mut gb = GameBoard::new();
    let r = gb.take_tiles_from_factory(99, &TileColor::RED);
    assert!(matches!(r, Err(InvalidMoveError::BadFactoryRequestError)));
    let ci = (0..5).find(|ci| gb.tile_factories[0][*ci] == 0);
    if let Some(ci) = ci {
        let color = TileColor::from_integer(ci as i32);
        let r = gb.take_tiles_from_factory(0, &color);
        assert!(matches!(r, Err(InvalidMoveError::BadFactoryRequestError)));
    }
    assert_eq!(board_total(&gb), 100);
}

#[test]
fn empty_pool_draw_is_rejected() {
    let mut gb = GameBoard::new();
    let r = gb.take_tiles_from_pool(&TileColor::RED);
    assert!(matches!(r, Err(InvalidMoveError::BadPoolRequestError)));
    let r = gb.take_tiles_from_pool(&TileColor::NOCOLOR);
    assert!(matches!(r, Err(InvalidMoveError::BadPoolRequestError)));
}

#[test]
fn return_to_bag_appends_tiles() {
    let mut gb = GameBoard::new();
    let ci = (0..5).find(|ci| gb.tile_factories[0][*ci] > 0).unwrap();
    let color = TileColor::from_integer(ci as i32);
    let drawn = gb.take_tiles_from_factory(0, &color).unwrap();
    let bag_before = gb.tile_bag.len();
    gb.return_tiles_to_bag(drawn, &color);
    assert_eq!(gb.tile_bag.len(), bag_before + drawn);
    assert_eq!(board_total(&gb), 100);
    assert_eq!(board_color_count(&gb, ci), 20);
}

#[test]
fn round_trip_drain_ends_the_round() {
    let mut gb = GameBoard::new();
    assert_eq!(board_total(&gb), 100);
    let mut taken = [0usize; 5];
    // drain every display through valid draws
    while !gb.tile_factories.is_empty() {
        let ci = (0..5).find(|ci| gb.tile_factories[0][*ci] > 0).unwrap();
        let color = TileColor::from_integer(ci as i32);
        let n = gb.take_tiles_from_factory(0, &color).unwrap();
        assert!(n > 0);
        taken[ci] += n;
    }
    // then drain the pool
    for ci in 0..5 {
        if gb.tile_pool[ci] > 0 {
            let color = TileColor::from_integer(ci as i32);
            let n = gb.take_tiles_from_pool(&color).unwrap();
            assert!(n > 0);
            taken[ci] += n;
        }
    }
    assert!(gb.end_of_round());
    // no tile lost or duplicated: everything not handed out is in the bag
    assert_eq!(gb.tile_bag.len(), 80);
    for ci in 0..5 {
        let in_bag = gb
            .tile_bag
            .iter()
            .filter(|t| **t == TileColor::from_integer(ci as i32))
            .count();
        assert_eq!(taken[ci] + in_bag, 20);
        assert_eq!(gb.tile_pool[ci], 0);
    }
}

#[test]
fn redeal_after_drain() {
    let mut gb = GameBoard::new();
    while !gb.tile_factories.is_empty() {
        let ci = (0..5).find(|ci| gb.tile_factories[0][*ci] > 0).unwrap();
        let color = TileColor::from_integer(ci as i32);
        gb.take_tiles_from_factory(0, &color).unwrap();
    }
    for ci in 0..5 {
        if gb.tile_pool[ci] > 0 {
            let color = TileColor::from_integer(ci as i32);
            gb.take_tiles_from_pool(&color).unwrap();
        }
    }
    assert!(gb.end_of_round());
    let total_before = board_total(&gb);
    gb.deal_tiles();
    // dealing moves tiles from the bag to displays, creating none
    assert_eq!(board_total(&gb), total_before);
    assert_eq!(gb.tile_factories.len(), 5.min(total_before / 4));
    assert!(!gb.end_of_round());
}

#[test]
fn reset_board_restores_the_full_bag() {
    let mut gb = GameBoard::new();
    let ci = (0..5).find(|ci| gb.tile_factories[0][*ci] > 0).unwrap();
    let color = TileColor::from_integer(ci as i32);
    gb.take_tiles_from_factory(0, &color).unwrap();
    gb.reset_board();
    assert_eq!(gb.tile_bag.len(), 100);
    assert!(gb.tile_factories.is_empty());
    for ci in 0..5 {
        assert_eq!(gb.tile_pool[ci], 0);
        assert_eq!(board_color_count(&gb, ci), 20);
    }
    assert!(gb.white_tile_in_pool);
}

#[test]
#[should_panic]
fn test_msg_processing_invalid_type() {
    let mut game_board = GameBoard::new();
    let req_type = AzoolRequestType::from_string("brglker");
    assert_eq!(req_type, AzoolRequestType::ReqTypeInvalid);
    let request = AzoolRequest::Invalid;
    let _result = game_board.process_msg(request).unwrap();
}

#[test]
fn test_msg_processing_factory_draw() {
    let mut game_board = GameBoard::new();
    let num_factories = game_board.tile_factories.len();
    let ci = (0..5)
        .find(|ci| game_board.tile_factories[0][*ci] > 0)
        .expect("Something wrong with our tile factories?");
    let color = TileColor::from_integer(ci as i32);
    let num_tiles = game_board.tile_factories[0][ci];
    let request = AzoolRequest::DrawFromFactory {
        current_player: 0,
        factory_idx: 0,
        tile_color: color,
    };
    let result = game_board.process_msg(request).unwrap();
    match result {
        AzoolResponse::Draw {
            success,
            num_tiles_returned,
            ..
        } => {
            assert!(success);
            assert_eq!(num_tiles_returned, num_tiles);
        }
        _ => panic!("wrong response kind"),
    }
    assert_eq!(game_board.tile_factories.len(), num_factories - 1);
    assert!(game_board.tile_pool.iter().sum::<usize>() > 0 || num_tiles == 4);
}

#[test]
fn test_msg_processing_pool_draw() {
    let mut game_board = GameBoard::new();
    while game_board.tile_factories[0].iter().filter(|n| **n > 0).count() == 1 {
        // if the first factory is all of the same tile, drawing won't put
        // anything in the pool, so re-deal until it works
        game_board.reset_board();
        game_board.deal_tiles();
    }
    let ci = (0..5)
        .find(|ci| game_board.tile_factories[0][*ci] > 0)
        .expect("Something wrong with our tile factories?");
    let draw_color = TileColor::from_integer(ci as i32);
    let _ = game_board.process_msg(AzoolRequest::DrawFromFactory {
        current_player: 0,
        factory_idx: 0,
        tile_color: draw_color,
    });
    let mut draw_color = TileColor::NOCOLOR;
    let mut num_tiles = 0;
    for ci in 0..5 {
        if game_board.tile_pool[ci] > 0 {
            draw_color = TileColor::from_integer(ci as i32);
            num_tiles = game_board.tile_pool[ci];
            break;
        }
    }
    let result = game_board
        .process_msg(AzoolRequest::DrawFromPool {
            current_player: 0,
            tile_color: draw_color,
        })
        .unwrap();
    match result {
        AzoolResponse::PoolDraw {
            success,
            num_tiles_returned,
            pool_penalty,
            ..
        } => {
            assert!(success);
            assert_eq!(num_tiles_returned, num_tiles);
            // the first pool draw of the round takes the marker
            assert!(pool_penalty);
        }
        _ => panic!("wrong response kind"),
    }
    assert!(!game_board.white_tile_in_pool);
}

#[test]
fn msg_begin_turn_and_unknown_are_bad_requests() {
    let mut gb = GameBoard::new();
    let r = gb.process_msg(AzoolRequest::BeginTurn { current_player: 1 });
    assert!(matches!(r, Err(InvalidMoveError::BadRequestError)));
    let r = gb.process_msg(AzoolRequest::TurnFinished { current_player: 1 });
    assert!(matches!(r, Err(InvalidMoveError::BadRequestError)));
    assert_eq!(board_total(&gb), 100);
}

#[test]
fn get_board_snapshot_echoes_player_and_state() {
    let mut gb = GameBoard::new();
    let r = gb
        .process_msg(AzoolRequest::GetBoard { current_player: 7 })
        .unwrap();
    match r {
        AzoolResponse::Board {
            current_player,
            view,
        } => {
            assert_eq!(current_player, 7);
            assert_eq!(view.num_factories, 5);
            assert_eq!(view.factories.len(), 5);
            assert_eq!(view.num_tiles_in_pool, 0);
            assert!(!view.end_of_round);
            assert!(view.white_tile_in_pool);
            for (i, f) in view.factories.iter().enumerate() {
                assert_eq!(*f, gb.tile_factories[i]);
            }
        }
        _ => panic!("wrong response kind"),
    }
}

#[test]
fn serialize_game_board_reports_pool_total() {
    let mut gb = GameBoard::new();
    let ci = (0..5).find(|ci| gb.tile_factories[0][*ci] > 0).unwrap();
    let color = TileColor::from_integer(ci as i32);
    let drawn = gb.take_tiles_from_factory(0, &color).unwrap();
    let view = gb.serialize_game_board();
    assert_eq!(view.num_tiles_in_pool, 4 - drawn);
    assert_eq!(view.num_factories, 4);
    assert_eq!(view.pool, gb.tile_pool);
}

#[test]
fn request_type_strings_round_trip() {
    let kinds = [
        AzoolRequestType::ReqTypeDrawFromFactory,
        AzoolRequestType::ReqTypeDrawFromPool,
        AzoolRequestType::ReqTypeDiscardFromFactory,
        AzoolRequestType::ReqTypeDiscardFromPool,
        AzoolRequestType::ReqTypeReturnToBag,
        AzoolRequestType::ReqTypeGetBoard,
        AzoolRequestType::ReqTypeBeginTurn,
        AzoolRequestType::ReqTypeTurnFinished,
        AzoolRequestType::ReqTypeInvalid,
    ];
    for kind in kinds {
        assert_eq!(AzoolRequestType::from_string(&kind.get_string()), kind);
    }
    assert_eq!(
        AzoolRequestType::ReqTypeDrawFromFactory.get_string(),
        "DRAW_FROM_FACTORY"
    );
    assert_eq!(
        AzoolRequestType::from_string("TAKE_TURN"),
        AzoolRequestType::ReqTypeBeginTurn
    );
}
