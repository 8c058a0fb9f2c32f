use tetris::board::{Board, BOARDHEIGHT, BOARDWIDTH};
use tetris::engine::{
    calculate_level_and_fall_freq, Moving, Tetris, BASEFALLFREQ, LEVELFALLSTEP, MINFALLFREQ,
    MOVEDOWNFREQ, MOVESIDEWAYSFREQ,
};
use tetris::piece::Piece;
use tetris::shape::Shape;
use tetris::state::{Key, State};

const SHAPE_LIST: [Shape; 7] = [
    Shape::S,
    Shape::Z,
    Shape::J,
    Shape::L,
    Shape::I,
    Shape::O,
    Shape::T,
];

fn square_at(x: isize, y: isize) -> Piece {
    Piece {
        shape: Shape::O,
        rotation: 0,
        x,
        y,
        color: 2,
    }
}

fn a_next_piece() -> Piece {
    Piece::at_spawn(Shape::T, 0, 1)
}

fn a_fresh_piece() -> Piece {
    Piece::at_spawn(Shape::L, 2, 3)
}

/// A game on an empty board with the given falling piece, all timers at 0.
fn game_with(piece: Piece) -> Tetris {
    Tetris::from_parts(Board::new(), Some(piece), a_next_piece(), 0, 0)
}

fn falling(game: &Tetris) -> Piece {
    game.snapshot().falling_piece.unwrap()
}

#[test]
fn intervals() {
    assert_eq!(MOVESIDEWAYSFREQ, 150);
    assert_eq!(MOVEDOWNFREQ, 100);
    assert_eq!(BASEFALLFREQ, 270);
    assert_eq!(LEVELFALLSTEP, 20);
    assert_eq!(MINFALLFREQ, 10);
}

#[test]
fn level_is_one_more_than_the_tens_of_the_score() {
    assert_eq!(calculate_level_and_fall_freq(0).0, 1);
    assert_eq!(calculate_level_and_fall_freq(9).0, 1);
    assert_eq!(calculate_level_and_fall_freq(10).0, 2);
    assert_eq!(calculate_level_and_fall_freq(19).0, 2);
    assert_eq!(calculate_level_and_fall_freq(25).0, 3);
    assert_eq!(calculate_level_and_fall_freq(129).0, 13);
    assert_eq!(calculate_level_and_fall_freq(130).0, 14);
    assert_eq!(calculate_level_and_fall_freq(u32::MAX).0, 429496730);
}

#[test]
fn fall_interval_shrinks_by_twenty_milliseconds_a_level() {
    assert_eq!(calculate_level_and_fall_freq(0), (1, 250));
    assert_eq!(calculate_level_and_fall_freq(10), (2, 230));
    assert_eq!(calculate_level_and_fall_freq(25), (3, 210));
    assert_eq!(calculate_level_and_fall_freq(50), (6, 150));
    assert_eq!(calculate_level_and_fall_freq(110), (12, 30));
    assert_eq!(calculate_level_and_fall_freq(120), (13, 10));
}

#[test]
fn fall_interval_has_a_floor() {
    assert_eq!(calculate_level_and_fall_freq(130), (14, 10));
    assert_eq!(calculate_level_and_fall_freq(140), (15, 10));
    assert_eq!(calculate_level_and_fall_freq(100000), (10001, 10));
    assert_eq!(calculate_level_and_fall_freq(u32::MAX).1, 10);
}

#[test]
fn level_and_fall_interval_are_monotone_in_the_score() {
    let mut last: (u32, u64) = calculate_level_and_fall_freq(0);
    for score in 1..400u32 {
        let now = calculate_level_and_fall_freq(score);
        assert!(now.0 >= last.0);
        assert!(now.1 <= last.1);
        assert!(now.1 >= 10);
        last = now;
    }
}

#[test]
fn a_new_game_starts_empty_with_two_spawned_pieces() {
    let game = Tetris::new(1234);
    let shot = game.snapshot();
    assert_eq!(shot.board.0, Board::new().0);
    assert_eq!(shot.score, 0);
    assert_eq!(shot.level, 1);
    assert_eq!(game.fall_freq(), 250);
    assert_eq!(game.moving(), Moving::Not);
    let p = shot.falling_piece.unwrap();
    assert_eq!((p.x, p.y), (3, -2));
    assert!(p.rotation < p.shape.rotation_count());
    assert!(p.color < 4);
    let n = shot.next_piece;
    assert_eq!((n.x, n.y), (3, -2));
    assert!(n.rotation < n.shape.rotation_count());
    assert!(n.color < 4);
}

#[test]
fn a_new_game_starts_its_timers_at_the_given_time() {
    let mut game = Tetris::new(1000);
    let start = falling(&game);
    assert_eq!(game.run(1250, None, None), State::Run);
    assert_eq!(falling(&game), start);
    assert_eq!(game.run(1251, None, None), State::Run);
    assert_eq!(falling(&game), Piece { y: -1, ..start });
}

#[test]
fn from_parts_keeps_its_parts() {
    let mut board = Board::new();
    board.0[2][19] = Some(1);
    let piece = square_at(5, 7);
    let game = Tetris::from_parts(board, Some(piece), a_next_piece(), 37, 99);
    let shot = game.snapshot();
    assert_eq!(shot.board.0, board.0);
    assert_eq!(shot.falling_piece, Some(piece));
    assert_eq!(shot.next_piece, a_next_piece());
    assert_eq!(shot.score, 37);
    assert_eq!(shot.level, 4);
    assert_eq!(game.fall_freq(), 190);
    assert_eq!(game.moving(), Moving::Not);
}

#[test]
fn a_missing_piece_is_replaced_by_the_next_one() {
    let mut game = Tetris::from_parts(Board::new(), None, a_next_piece(), 0, 0);
    assert_eq!(game.step(5, None, None, a_fresh_piece()), State::Run);
    let shot = game.snapshot();
    assert_eq!(shot.falling_piece, Some(a_next_piece()));
    assert_eq!(shot.next_piece, a_fresh_piece());
    assert_eq!(shot.board.0, Board::new().0);
}

#[test]
fn a_piece_that_appears_starts_the_fall_timer() {
    let mut game = Tetris::from_parts(Board::new(), None, a_next_piece(), 0, 0);
    // The timers stand at 0; the piece appears at 1000 and falls from then.
    assert_eq!(game.step(1000, None, None, a_fresh_piece()), State::Run);
    assert_eq!(falling(&game), a_next_piece());
    assert_eq!(game.step(1250, None, None, a_fresh_piece()), State::Run);
    assert_eq!(falling(&game), a_next_piece());
    assert_eq!(game.step(1251, None, None, a_fresh_piece()), State::Run);
    assert_eq!(falling(&game), Piece { y: -1, ..a_next_piece() });
}

#[test]
fn the_fresh_piece_is_left_aside_while_a_piece_falls() {
    let mut game = game_with(square_at(3, 5));
    assert_eq!(game.step(5, None, None, a_fresh_piece()), State::Run);
    let shot = game.snapshot();
    assert_eq!(shot.falling_piece, Some(square_at(3, 5)));
    assert_eq!(shot.next_piece, a_next_piece());
}

#[test]
fn a_blocked_spawn_ends_the_game_and_leaves_the_board() {
    for shape in SHAPE_LIST.iter() {
        for rotation in 0..shape.rotation_count() {
            let mut board = Board::new();
            for x in 3..8 {
                for y in 0..3 {
                    board.0[x][y] = Some(1);
                }
            }
            let next = Piece::at_spawn(*shape, rotation, 0);
            let mut game = Tetris::from_parts(board, None, next, 17, 0);
            assert_eq!(
                game.step(40, Some(Key::Left), None, a_fresh_piece()),
                State::GameOver
            );
            let shot = game.snapshot();
            assert_eq!(shot.board.0, board.0);
            assert_eq!(shot.score, 17);
            assert_eq!(shot.level, 2);
            assert_eq!(shot.falling_piece, Some(next));
            assert_eq!(shot.next_piece, a_fresh_piece());
            assert_eq!(game.moving(), Moving::Not);
        }
    }
}

#[test]
fn two_settled_cells_in_the_top_middle_block_every_spawn() {
    for shape in SHAPE_LIST.iter() {
        for rotation in 0..shape.rotation_count() {
            let mut board = Board::new();
            board.0[4][0] = Some(0);
            board.0[5][0] = Some(0);
            let next = Piece::at_spawn(*shape, rotation, 0);
            let mut game = Tetris::from_parts(board, None, next, 0, 0);
            assert_eq!(game.run(40, None, None), State::GameOver);
            assert_eq!(game.snapshot().board.0, board.0);
        }
    }
}

#[test]
fn run_draws_the_piece_to_follow() {
    let mut game = Tetris::from_parts(Board::new(), None, a_next_piece(), 0, 0);
    assert_eq!(game.run(5, None, None), State::Run);
    let shot = game.snapshot();
    assert_eq!(shot.falling_piece, Some(a_next_piece()));
    let n = shot.next_piece;
    assert_eq!((n.x, n.y), (3, -2));
    assert!(n.rotation < n.shape.rotation_count());
    assert!(n.color < 4);
}

#[test]
fn left_moves_one_column_and_is_held() {
    for key in [Key::Left, Key::A].iter() {
        let mut game = game_with(square_at(3, 5));
        assert_eq!(game.step(10, Some(*key), None, a_fresh_piece()), State::Run);
        assert_eq!(falling(&game), square_at(2, 5));
        assert_eq!(game.moving(), Moving::Left);
    }
}

#[test]
fn right_moves_one_column_and_is_held() {
    for key in [Key::Right, Key::D].iter() {
        let mut game = game_with(square_at(3, 5));
        assert_eq!(game.step(10, Some(*key), None, a_fresh_piece()), State::Run);
        assert_eq!(falling(&game), square_at(4, 5));
        assert_eq!(game.moving(), Moving::Right);
    }
}

#[test]
fn a_wall_stops_sideways_moves() {
    // The square occupies columns x+1 and x+2.
    let mut at_left = game_with(square_at(-1, 5));
    assert_eq!(at_left.step(10, Some(Key::Left), None, a_fresh_piece()), State::Run);
    assert_eq!(falling(&at_left), square_at(-1, 5));
    assert_eq!(at_left.moving(), Moving::Not);
    let mut at_right = game_with(square_at(7, 5));
    assert_eq!(at_right.step(10, Some(Key::D), None, a_fresh_piece()), State::Run);
    assert_eq!(falling(&at_right), square_at(7, 5));
    assert_eq!(at_right.moving(), Moving::Not);
}

#[test]
fn a_piece_reaches_the_left_wall_with_a_negative_column() {
    let upright = Piece {
        shape: Shape::I,
        rotation: 0,
        x: 0,
        y: 5,
        color: 0,
    };
    let mut game = game_with(upright);
    assert_eq!(game.step(1, Some(Key::Left), None, a_fresh_piece()), State::Run);
    assert_eq!(falling(&game).x, -1);
    assert_eq!(game.step(2, Some(Key::Left), None, a_fresh_piece()), State::Run);
    assert_eq!(falling(&game).x, -2);
    assert_eq!(game.step(3, Some(Key::Left), None, a_fresh_piece()), State::Run);
    assert_eq!(falling(&game).x, -2);
}

#[test]
fn a_settled_cell_stops_sideways_moves() {
    let mut board = Board::new();
    board.0[3][8] = Some(0);
    // The square at (3, 5) occupies columns 4, 5 and rows 7, 8.
    let mut game = Tetris::from_parts(board, Some(square_at(3, 5)), a_next_piece(), 0, 0);
    assert_eq!(game.step(10, Some(Key::Left), None, a_fresh_piece()), State::Run);
    assert_eq!(falling(&game), square_at(3, 5));
    assert_eq!(game.moving(), Moving::Not);
}

#[test]
fn up_turns_the_piece_forward() {
    for key in [Key::Up, Key::W].iter() {
        let start = Piece {
            shape: Shape::T,
            rotation: 3,
            x: 3,
            y: 5,
            color: 1,
        };
        let mut game = game_with(start);
        assert_eq!(game.step(10, Some(*key), None, a_fresh_piece()), State::Run);
        assert_eq!(falling(&game), Piece { rotation: 0, ..start });
        assert_eq!(game.step(20, Some(*key), None, a_fresh_piece()), State::Run);
        assert_eq!(falling(&game), Piece { rotation: 1, ..start });
        assert_eq!(game.moving(), Moving::Not);
    }
}

#[test]
fn q_turns_the_piece_backward() {
    let start = Piece {
        shape: Shape::J,
        rotation: 0,
        x: 3,
        y: 5,
        color: 1,
    };
    let mut game = game_with(start);
    assert_eq!(game.step(10, Some(Key::Q), None, a_fresh_piece()), State::Run);
    assert_eq!(falling(&game), Piece { rotation: 3, ..start });
    assert_eq!(game.step(20, Some(Key::Q), None, a_fresh_piece()), State::Run);
    assert_eq!(falling(&game), Piece { rotation: 2, ..start });
}

#[test]
fn a_turn_into_the_right_wall_is_rolled_back() {
    // The upright bar stands in board column 9; flat it would reach
    // columns 7 to 10.
    let start = Piece {
        shape: Shape::I,
        rotation: 0,
        x: 7,
        y: 5,
        color: 0,
    };
    for key in [Key::Up, Key::W, Key::Q].iter() {
        let mut game = game_with(start);
        assert_eq!(game.step(10, Some(*key), None, a_fresh_piece()), State::Run);
        assert_eq!(falling(&game), start);
    }
}

#[test]
fn a_turn_into_settled_cells_is_rolled_back() {
    let mut board = Board::new();
    // T, first state: (2,1) (1,2) (2,2) (3,2); second: (2,1) (2,2) (3,2) (2,3).
    board.0[5][8] = Some(3);
    let start = Piece {
        shape: Shape::T,
        rotation: 0,
        x: 3,
        y: 5,
        color: 0,
    };
    let mut game = Tetris::from_parts(board, Some(start), a_next_piece(), 0, 0);
    assert_eq!(game.step(10, Some(Key::Up), None, a_fresh_piece()), State::Run);
    assert_eq!(falling(&game), start);
    // Backward it turns to the fourth state: (2,1) (1,2) (2,2) (2,3), blocked too.
    assert_eq!(game.step(20, Some(Key::Q), None, a_fresh_piece()), State::Run);
    assert_eq!(falling(&game), start);
    assert_eq!(game.snapshot().board.0, board.0);
}

#[test]
fn down_moves_one_row_and_is_held() {
    let mut game = game_with(square_at(3, 5));
    assert_eq!(game.step(10, Some(Key::Down), None, a_fresh_piece()), State::Run);
    assert_eq!(falling(&game), square_at(3, 6));
    assert_eq!(game.moving(), Moving::Down);
}

#[test]
fn down_is_held_even_where_the_piece_cannot_move() {
    let mut game = game_with(square_at(3, 16));
    assert_eq!(game.step(10, Some(Key::Down), None, a_fresh_piece()), State::Run);
    assert_eq!(falling(&game), square_at(3, 16));
    assert_eq!(game.moving(), Moving::Down);
}

#[test]
fn space_drops_the_piece_to_the_floor() {
    let mut game = game_with(Piece::at_spawn(Shape::O, 0, 2));
    assert_eq!(game.step(10, Some(Key::Space), None, a_fresh_piece()), State::Run);
    // The square's lower row is template row 3: row 19 of the board.
    assert_eq!(falling(&game), square_at(3, 16));
    assert_eq!(game.moving(), Moving::Not);
    assert_eq!(game.snapshot().board.0, Board::new().0);
}

#[test]
fn every_piece_drops_onto_the_floor_of_an_empty_board() {
    for shape in SHAPE_LIST.iter() {
        for rotation in 0..shape.rotation_count() {
            let start = Piece::at_spawn(*shape, rotation, 0);
            let lowest: isize = start.occupied_cells().iter().map(|c| c.1 as isize).max().unwrap();
            let mut game = game_with(start);
            assert_eq!(game.step(10, Some(Key::Space), None, a_fresh_piece()), State::Run);
            let landed = falling(&game);
            assert_eq!(landed, Piece { y: 19 - lowest, ..start });
            let board = game.snapshot().board;
            assert!(board.is_valid_position(&landed, 0, 0));
            assert!(!board.is_valid_position(&landed, 0, 1));
        }
    }
}

#[test]
fn space_next_to_the_floor_does_not_move_the_piece() {
    let mut game = game_with(square_at(3, 16));
    assert_eq!(game.step(10, Some(Key::Space), None, a_fresh_piece()), State::Run);
    assert_eq!(falling(&game), square_at(3, 16));
}

#[test]
fn space_drops_the_piece_onto_settled_cells() {
    let mut board = Board::new();
    board.0[4][10] = Some(0);
    let mut game = Tetris::from_parts(board, Some(square_at(3, -2)), a_next_piece(), 0, 0);
    assert_eq!(game.step(10, Some(Key::Space), None, a_fresh_piece()), State::Run);
    // Rows y+2 and y+3 end at rows 8 and 9.
    assert_eq!(falling(&game), square_at(3, 6));
}

#[test]
fn space_does_not_pass_through_settled_cells() {
    let mut board = Board::new();
    board.0[4][10] = Some(0);
    // Below the settled cell the square would fit again.
    let mut game = Tetris::from_parts(board, Some(square_at(3, 0)), a_next_piece(), 0, 0);
    assert_eq!(game.step(10, Some(Key::Space), None, a_fresh_piece()), State::Run);
    assert_eq!(falling(&game).y, 6);
}

#[test]
fn space_ends_a_held_movement() {
    let mut game = game_with(square_at(3, 5));
    assert_eq!(game.step(10, Some(Key::Left), None, a_fresh_piece()), State::Run);
    assert_eq!(game.moving(), Moving::Left);
    assert_eq!(game.step(20, Some(Key::Space), None, a_fresh_piece()), State::Run);
    assert_eq!(game.moving(), Moving::Not);
    assert_eq!(falling(&game), square_at(2, 16));
}

#[test]
fn p_pauses_and_does_nothing_else() {
    let mut game = game_with(square_at(3, 5));
    assert_eq!(game.step(10, Some(Key::Left), None, a_fresh_piece()), State::Run);
    assert_eq!(falling(&game), square_at(2, 5));
    // Both the sideways and the fall interval have long passed.
    assert_eq!(game.step(5000, Some(Key::P), None, a_fresh_piece()), State::Paused);
    assert_eq!(falling(&game), square_at(2, 5));
    assert_eq!(game.moving(), Moving::Left);
    assert_eq!(game.snapshot().score, 0);
}

#[test]
fn p_comes_after_a_piece_has_appeared_and_a_key_was_let_go() {
    let mut game = Tetris::from_parts(Board::new(), None, a_next_piece(), 0, 0);
    assert_eq!(
        game.step(10, Some(Key::P), Some(Key::Left), a_fresh_piece()),
        State::Paused
    );
    let shot = game.snapshot();
    assert_eq!(shot.falling_piece, Some(a_next_piece()));
    assert_eq!(shot.next_piece, a_fresh_piece());

    let mut held = game_with(square_at(3, 5));
    assert_eq!(held.step(10, Some(Key::Right), None, a_fresh_piece()), State::Run);
    assert_eq!(held.moving(), Moving::Right);
    assert_eq!(
        held.step(20, Some(Key::P), Some(Key::Right), a_fresh_piece()),
        State::Paused
    );
    assert_eq!(held.moving(), Moving::Not);
}

#[test]
fn a_blocked_spawn_comes_before_p() {
    let mut board = Board::new();
    board.0[4][0] = Some(0);
    board.0[5][0] = Some(0);
    let mut game = Tetris::from_parts(board, None, a_next_piece(), 0, 0);
    assert_eq!(game.step(10, Some(Key::P), None, a_fresh_piece()), State::GameOver);
}

#[test]
fn letting_go_of_a_direction_ends_the_held_movement() {
    for released in [Key::Left, Key::Right, Key::Down].iter() {
        let mut game = game_with(square_at(3, 5));
        assert_eq!(game.step(10, Some(Key::Left), None, a_fresh_piece()), State::Run);
        assert_eq!(game.moving(), Moving::Left);
        assert_eq!(game.step(20, None, Some(*released), a_fresh_piece()), State::Run);
        assert_eq!(game.moving(), Moving::Not);
        // Nothing moves any more.
        assert_eq!(game.step(240, None, None, a_fresh_piece()), State::Run);
        assert_eq!(falling(&game), square_at(2, 5));
    }
}

#[test]
fn letting_go_of_another_key_changes_nothing() {
    for released in [
        Key::Up,
        Key::A,
        Key::D,
        Key::W,
        Key::Q,
        Key::Space,
        Key::P,
        Key::Other,
    ]
    .iter()
    {
        let mut game = game_with(square_at(3, 5));
        assert_eq!(game.step(10, Some(Key::Left), None, a_fresh_piece()), State::Run);
        assert_eq!(game.step(20, None, Some(*released), a_fresh_piece()), State::Run);
        assert_eq!(game.moving(), Moving::Left);
        assert_eq!(falling(&game), square_at(2, 5));
    }
}

#[test]
fn a_key_let_go_is_handled_before_the_key_pressed() {
    let mut game = game_with(square_at(3, 5));
    assert_eq!(game.step(10, Some(Key::Left), None, a_fresh_piece()), State::Run);
    assert_eq!(
        game.step(20, Some(Key::Right), Some(Key::Left), a_fresh_piece()),
        State::Run
    );
    assert_eq!(game.moving(), Moving::Right);
    assert_eq!(falling(&game), square_at(3, 5));
}

#[test]
fn other_keys_do_nothing() {
    let mut game = game_with(square_at(3, 5));
    assert_eq!(game.step(10, Some(Key::Other), None, a_fresh_piece()), State::Run);
    assert_eq!(falling(&game), square_at(3, 5));
    assert_eq!(game.moving(), Moving::Not);
}

#[test]
fn a_held_sideways_movement_goes_on_after_more_than_150_ms() {
    let mut game = game_with(square_at(3, 5));
    assert_eq!(game.step(10, Some(Key::Left), None, a_fresh_piece()), State::Run);
    assert_eq!(falling(&game), square_at(2, 5));
    assert_eq!(game.step(160, None, None, a_fresh_piece()), State::Run);
    assert_eq!(falling(&game), square_at(2, 5));
    assert_eq!(game.step(161, None, None, a_fresh_piece()), State::Run);
    assert_eq!(falling(&game), square_at(1, 5));
    // The timer has started again at 161.
    assert_eq!(game.step(240, None, None, a_fresh_piece()), State::Run);
    assert_eq!(falling(&game), square_at(1, 5));
}

#[test]
fn a_held_movement_to_the_right_goes_on_too() {
    let mut game = game_with(square_at(3, 5));
    assert_eq!(game.step(10, Some(Key::D), None, a_fresh_piece()), State::Run);
    assert_eq!(falling(&game), square_at(4, 5));
    assert_eq!(game.step(161, None, None, a_fresh_piece()), State::Run);
    assert_eq!(falling(&game), square_at(5, 5));
}

#[test]
fn a_held_sideways_movement_stops_at_the_wall_and_restarts_its_timer() {
    let mut game = game_with(square_at(0, 5));
    assert_eq!(game.step(10, Some(Key::Left), None, a_fresh_piece()), State::Run);
    assert_eq!(falling(&game), square_at(-1, 5));
    assert_eq!(game.step(161, None, None, a_fresh_piece()), State::Run);
    assert_eq!(falling(&game), square_at(-1, 5));
    assert_eq!(game.moving(), Moving::Left);
    // The timer has started again at 161 though the piece did not move.
    assert_eq!(game.step(240, None, None, a_fresh_piece()), State::Run);
    assert_eq!(falling(&game), square_at(-1, 5));
    assert_eq!(game.step(245, Some(Key::Right), None, a_fresh_piece()), State::Run);
    assert_eq!(falling(&game), square_at(0, 5));
    assert_eq!(game.moving(), Moving::Right);
}

#[test]
fn a_held_downward_movement_goes_by_the_sideways_timer() {
    let mut game = game_with(square_at(3, 5));
    // The sideways timer stands at 0.
    assert_eq!(game.step(50, Some(Key::Down), None, a_fresh_piece()), State::Run);
    assert_eq!(falling(&game), square_at(3, 6));
    assert_eq!(game.step(100, None, None, a_fresh_piece()), State::Run);
    assert_eq!(falling(&game), square_at(3, 6));
    assert_eq!(game.step(101, None, None, a_fresh_piece()), State::Run);
    assert_eq!(falling(&game), square_at(3, 7));
    // The sideways timer still stands at 0: every tick moves the piece.
    assert_eq!(game.step(102, None, None, a_fresh_piece()), State::Run);
    assert_eq!(falling(&game), square_at(3, 8));
    assert_eq!(game.step(103, None, None, a_fresh_piece()), State::Run);
    assert_eq!(falling(&game), square_at(3, 9));
}

#[test]
fn a_sideways_move_holds_back_the_held_downward_movement() {
    let mut game = game_with(square_at(3, 5));
    assert_eq!(game.step(200, Some(Key::Left), None, a_fresh_piece()), State::Run);
    assert_eq!(falling(&game), square_at(2, 5));
    // The press moves the piece down; the sideways timer stands at 200.
    assert_eq!(game.step(210, Some(Key::Down), None, a_fresh_piece()), State::Run);
    assert_eq!(falling(&game), square_at(2, 6));
    assert_eq!(game.step(240, None, None, a_fresh_piece()), State::Run);
    assert_eq!(falling(&game), square_at(2, 6));
}

#[test]
fn a_pressed_key_moves_the_piece_twice_where_the_timer_is_old() {
    let mut game = game_with(square_at(3, 5));
    // The sideways timer stands at 0: at 200 more than 100 ms have passed,
    // so the press moves the piece and the held movement once more.
    assert_eq!(game.step(200, Some(Key::Down), None, a_fresh_piece()), State::Run);
    assert_eq!(falling(&game), square_at(3, 7));
}

#[test]
fn gravity_moves_the_piece_after_more_than_the_fall_interval() {
    let mut game = game_with(square_at(3, 5));
    assert_eq!(game.step(250, None, None, a_fresh_piece()), State::Run);
    assert_eq!(falling(&game), square_at(3, 5));
    assert_eq!(game.step(251, None, None, a_fresh_piece()), State::Run);
    assert_eq!(falling(&game), square_at(3, 6));
    assert_eq!(game.step(501, None, None, a_fresh_piece()), State::Run);
    assert_eq!(falling(&game), square_at(3, 6));
    assert_eq!(game.step(502, None, None, a_fresh_piece()), State::Run);
    assert_eq!(falling(&game), square_at(3, 7));
}

#[test]
fn gravity_is_faster_on_a_higher_level() {
    let mut game = Tetris::from_parts(Board::new(), Some(square_at(3, 5)), a_next_piece(), 120, 0);
    assert_eq!(game.fall_freq(), 10);
    assert_eq!(game.snapshot().level, 13);
    assert_eq!(game.step(10, None, None, a_fresh_piece()), State::Run);
    assert_eq!(falling(&game), square_at(3, 5));
    assert_eq!(game.step(11, None, None, a_fresh_piece()), State::Run);
    assert_eq!(falling(&game), square_at(3, 6));
}

#[test]
fn a_clock_that_goes_back_moves_nothing() {
    let mut game = Tetris::from_parts(Board::new(), Some(square_at(3, 5)), a_next_piece(), 0, 1000);
    assert_eq!(game.step(1010, Some(Key::Left), None, a_fresh_piece()), State::Run);
    assert_eq!(falling(&game), square_at(2, 5));
    assert_eq!(game.step(0, None, None, a_fresh_piece()), State::Run);
    assert_eq!(falling(&game), square_at(2, 5));
    assert_eq!(game.step(999, None, None, a_fresh_piece()), State::Run);
    assert_eq!(falling(&game), square_at(2, 5));
}

#[test]
fn a_landed_piece_is_settled_into_the_board() {
    let mut game = game_with(square_at(3, 16));
    assert_eq!(game.step(10, Some(Key::Left), None, a_fresh_piece()), State::Run);
    assert_eq!(game.moving(), Moving::Left);
    assert_eq!(game.step(251, None, None, a_fresh_piece()), State::Run);
    let shot = game.snapshot();
    assert_eq!(shot.falling_piece, None);
    assert_eq!(shot.next_piece, a_next_piece());
    assert_eq!(shot.score, 0);
    assert_eq!(shot.level, 1);
    assert_eq!(game.moving(), Moving::Not);
    // The held movement took the square to columns 2 and 3 first.
    let mut expected = Board::new();
    expected.0[2][18] = Some(2);
    expected.0[3][18] = Some(2);
    expected.0[2][19] = Some(2);
    expected.0[3][19] = Some(2);
    assert_eq!(shot.board.0, expected.0);
}

#[test]
fn the_next_piece_falls_in_the_tick_after_a_landing() {
    let mut game = game_with(square_at(3, 16));
    assert_eq!(game.step(251, None, None, a_fresh_piece()), State::Run);
    assert_eq!(game.snapshot().falling_piece, None);
    assert_eq!(game.step(300, None, None, a_fresh_piece()), State::Run);
    let shot = game.snapshot();
    assert_eq!(shot.falling_piece, Some(a_next_piece()));
    assert_eq!(shot.next_piece, a_fresh_piece());
}

#[test]
fn complete_rows_count_one_point_each() {
    let mut board = Board::new();
    for x in 0..BOARDWIDTH {
        if x != 4 && x != 5 {
            board.0[x][18] = Some(0);
            board.0[x][19] = Some(1);
        }
    }
    board.0[0][17] = Some(3);
    let mut game = Tetris::from_parts(board, Some(square_at(3, 16)), a_next_piece(), 5, 0);
    assert_eq!(game.step(251, None, None, a_fresh_piece()), State::Run);
    let shot = game.snapshot();
    assert_eq!(shot.score, 7);
    assert_eq!(shot.level, 1);
    assert_eq!(shot.falling_piece, None);
    let mut expected = Board::new();
    expected.0[0][19] = Some(3);
    assert_eq!(shot.board.0, expected.0);
}

#[test]
fn the_level_follows_the_score() {
    let mut board = Board::new();
    for x in 0..BOARDWIDTH {
        if x != 4 && x != 5 {
            board.0[x][19] = Some(1);
        }
    }
    let mut game = Tetris::from_parts(board, Some(square_at(3, 16)), a_next_piece(), 9, 0);
    assert_eq!(game.fall_freq(), 250);
    assert_eq!(game.step(251, None, None, a_fresh_piece()), State::Run);
    let shot = game.snapshot();
    assert_eq!(shot.score, 10);
    assert_eq!(shot.level, 2);
    assert_eq!(game.fall_freq(), 230);
    // The upper half of the square has moved down into the bottom row.
    let mut expected = Board::new();
    expected.0[4][19] = Some(2);
    expected.0[5][19] = Some(2);
    assert_eq!(shot.board.0, expected.0);
}

#[test]
fn the_score_stops_at_the_largest_number() {
    let mut board = Board::new();
    for x in 0..BOARDWIDTH {
        if x != 4 && x != 5 {
            board.0[x][18] = Some(0);
            board.0[x][19] = Some(1);
        }
    }
    let mut game = Tetris::from_parts(
        board,
        Some(square_at(3, 16)),
        a_next_piece(),
        u32::MAX - 1,
        0,
    );
    assert_eq!(game.step(11, None, None, a_fresh_piece()), State::Run);
    let shot = game.snapshot();
    assert_eq!(shot.falling_piece, None);
    assert_eq!(shot.score, u32::MAX);
    assert_eq!(shot.level, 429496730);
}

#[test]
fn a_piece_that_lands_half_above_the_board_is_settled_where_it_shows() {
    let mut board = Board::new();
    for y in 2..BOARDHEIGHT {
        board.0[5][y] = Some(0);
    }
    let upright = Piece::at_spawn(Shape::I, 0, 1);
    // Column 5, rows -2 to 1: it fits, and cannot go down.
    let mut game = Tetris::from_parts(board, Some(upright), a_next_piece(), 0, 0);
    assert_eq!(game.step(251, None, None, a_fresh_piece()), State::Run);
    let shot = game.snapshot();
    assert_eq!(shot.falling_piece, None);
    let mut expected = board;
    expected.0[5][0] = Some(1);
    expected.0[5][1] = Some(1);
    assert_eq!(shot.board.0, expected.0);
}

fn next_number(seed: &mut u64) -> u64 {
    *seed = seed
        .wrapping_mul(6364136223846793005)
        .wrapping_add(1442695040888963407);
    *seed >> 33
}

#[test]
fn the_score_never_falls_and_the_level_follows_it() {
    let keys = [
        Key::Left,
        Key::Right,
        Key::Up,
        Key::Down,
        Key::A,
        Key::D,
        Key::W,
        Key::Q,
        Key::Space,
        Key::Other,
    ];
    let mut seed: u64 = 7;
    let mut now: u64 = 0;
    let mut game = Tetris::new(now);
    let mut last_score: u32 = 0;
    let mut games_ended: u32 = 0;
    let mut pieces_landed: u32 = 0;
    for _ in 0..60000 {
        now += 10 + next_number(&mut seed) % 60;
        let press = match next_number(&mut seed) % 4 {
            0 => Some(keys[(next_number(&mut seed) % 10) as usize]),
            _ => None,
        };
        let release = match next_number(&mut seed) % 8 {
            0 => Some(keys[(next_number(&mut seed) % 10) as usize]),
            _ => None,
        };
        let state = game.run(now, press, release);
        let shot = game.snapshot();
        assert!(shot.score >= last_score);
        assert_eq!(shot.level, shot.score / 10 + 1);
        assert_eq!(game.fall_freq(), calculate_level_and_fall_freq(shot.score).1);
        last_score = shot.score;
        for x in 0..BOARDWIDTH {
            for y in 0..BOARDHEIGHT {
                if let Some(color) = shot.board.0[x][y] {
                    assert!(color < 4);
                }
            }
        }
        match state {
            State::Run => match shot.falling_piece {
                Some(p) => {
                    assert!(shot.board.is_valid_position(&p, 0, 0));
                    assert!(p.y >= -2);
                }
                None => {
                    pieces_landed += 1;
                    for y in 0..BOARDHEIGHT {
                        assert!(!shot.board.is_complete_line(y));
                    }
                }
            },
            State::GameOver => {
                let p = shot.falling_piece.unwrap();
                assert_eq!((p.x, p.y), (3, -2));
                assert!(!shot.board.is_valid_position(&p, 0, 0));
                games_ended += 1;
                game = Tetris::new(now);
                last_score = 0;
            }
            _ => panic!("unexpected state"),
        }
    }
    assert!(pieces_landed > 100);
    assert!(games_ended > 0);
}
