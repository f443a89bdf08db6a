use rand::SeedableRng;
use tetris_engine::commands::{apply_commands, apply_token, parse_token, Token};
use tetris_engine::grid::TetrisBoard;
use tetris_engine::planner::{choose_placement, plan_commands};
use tetris_engine::referee::{GameOver, Tetris};
use tetris_engine::shape::{parse_position, Tetromino, TetrominoKind};

fn rng() -> rand::rngs::StdRng {
    rand::rngs::StdRng::from_seed([7u8; 32])
}

fn tokens(words: &[&str]) -> Vec<String> {
    words.iter().map(|w| w.to_string()).collect()
}

#[test]
fn parse_recognizes_the_three_commands() {
    assert_eq!(parse_token("shift_left"), Some(Token::ShiftLeft));
    assert_eq!(parse_token("shift_right"), Some(Token::ShiftRight));
    assert_eq!(parse_token("rotate"), Some(Token::Rotate));
    assert_eq!(parse_token(""), Some(Token::Blank));
    assert_eq!(parse_token("fly"), None);
    assert_eq!(parse_token("shift_lefts"), None);
}

#[test]
fn ten_left_shifts_clamp_at_column_one() {
    let mut piece = Tetromino { kind: TetrominoKind::O, position: 5, rotation: 0 };
    let line = tokens(&["shift_left"; 10]);
    assert!(apply_commands(&mut piece, &line));
    assert_eq!(piece.position, 1);
    assert_eq!(piece.rotation, 0);
}

#[test]
fn right_shifts_clamp_at_the_board_edge() {
    let mut piece = Tetromino { kind: TetrominoKind::O, position: 8, rotation: 0 };
    let line = tokens(&["shift_right"; 5]);
    assert!(apply_commands(&mut piece, &line));
    // Width 2: the rightmost legal offset is 10 - 2 + 1 = 9.
    assert_eq!(piece.position, 9);
}

#[test]
fn rotation_clamps_the_offset_down() {
    // A vertical I at the right edge: rotating makes it 4 wide, so the
    // offset is pulled back to 10 - 4 + 1 = 7.
    let mut piece = Tetromino { kind: TetrominoKind::I, position: 10, rotation: 0 };
    apply_token(&mut piece, Token::Rotate);
    assert_eq!(piece.rotation, 90);
    assert_eq!(piece.position, 7);
    // Offsets stay legal under any further command mix.
    let line = tokens(&["rotate", "shift_right", "rotate", "shift_left", "rotate", "rotate"]);
    assert!(apply_commands(&mut piece, &line));
    assert!(piece.position >= 1);
    assert!(piece.position + piece.width() <= 11);
}

#[test]
fn malformed_token_fails_the_round() {
    let mut session = Tetris::new(rng(), 5, vec![TetrominoKind::O]);
    let piece = Tetromino { kind: TetrominoKind::O, position: 4, rotation: 0 };
    let outcome = session.play_round(piece, &tokens(&["shift_left", "fly"]));
    assert_eq!(outcome, Some(GameOver::WrongInput));
    assert_eq!(session.score, 0);
    for row in 0..20 {
        for col in 0..10 {
            assert!(!session.board.is_occupied(row, col));
        }
    }
}

#[test]
fn o_piece_with_no_commands_lands_at_the_bottom() {
    let mut session = Tetris::new(rng(), 5, vec![TetrominoKind::O]);
    let piece = Tetromino { kind: TetrominoKind::O, position: 1, rotation: 0 };
    let outcome = session.play_round(piece, &tokens(&[]));
    assert_eq!(outcome, None);
    assert_eq!(session.score, 0);
    for (row, col) in [(0, 0), (0, 1), (1, 0), (1, 1)] {
        assert!(session.board.is_occupied(row, col));
    }
}

#[test]
fn five_o_pieces_fill_and_clear_the_bottom_rows() {
    let mut session = Tetris::new(rng(), 5, vec![TetrominoKind::O]);
    for position in [1, 3, 5, 7] {
        let piece = Tetromino { kind: TetrominoKind::O, position, rotation: 0 };
        assert_eq!(session.play_round(piece, &tokens(&[])), None);
        assert_eq!(session.score, 0);
    }
    // The fifth O completes rows 0 and 1 in one stroke: one clearing pass
    // removes them both and the score rises by the cleared-line count.
    let piece = Tetromino { kind: TetrominoKind::O, position: 9, rotation: 0 };
    assert_eq!(session.play_round(piece, &tokens(&[])), None);
    assert_eq!(session.score, 2);
    for row in 0..20 {
        for col in 0..10 {
            assert!(!session.board.is_occupied(row, col));
        }
    }
}

#[test]
fn overflowing_the_board_loses_the_session() {
    let mut session = Tetris::new(rng(), 100, vec![TetrominoKind::I]);
    for _ in 0..5 {
        let piece = Tetromino { kind: TetrominoKind::I, position: 1, rotation: 0 };
        assert_eq!(session.play_round(piece, &tokens(&[])), None);
    }
    let piece = Tetromino { kind: TetrominoKind::I, position: 1, rotation: 0 };
    assert_eq!(session.play_round(piece, &tokens(&[])), Some(GameOver::Dead));
}

#[test]
fn spawned_pieces_come_from_the_enabled_set() {
    let mut session = Tetris::new(rng(), 5, vec![TetrominoKind::T]);
    for _ in 0..20 {
        let piece = session.spawn_tetromino();
        assert_eq!(piece.kind, TetrominoKind::T);
        assert_eq!(piece.rotation, 0);
        assert!(piece.position >= 1);
        assert!(piece.position + piece.width() <= 11);
    }
    let mut empty_set = Tetris::new(rng(), 5, vec![]);
    assert_eq!(empty_set.spawn_tetromino().kind, TetrominoKind::O);
}

#[test]
fn session_finishes_when_the_target_is_reached() {
    let mut session = Tetris::new(rng(), 2, vec![TetrominoKind::O]);
    assert!(!session.is_finished());
    for position in [1, 3, 5, 7, 9] {
        let piece = Tetromino { kind: TetrominoKind::O, position, rotation: 0 };
        assert_eq!(session.play_round(piece, &tokens(&[])), None);
    }
    assert_eq!(session.score, 2);
    assert!(session.is_finished());
}

#[test]
fn planner_prefers_the_flattest_lowest_placement() {
    let board = TetrisBoard::default();
    let placement = choose_placement(&board, TetrominoKind::O).unwrap();
    // Every O placement on an empty board peaks at row 1 with no holes, so
    // the tie falls to the first pair in enumeration order.
    assert_eq!(placement.position, 1);
    assert_eq!(placement.rotation, 0);
    assert_eq!(placement.landing, 1);
    assert_eq!(placement.stats.peak, 1);
    assert_eq!(placement.stats.holes, 0);

    // A horizontal I placement beats a vertical one on an empty board.
    let flat = choose_placement(&board, TetrominoKind::I).unwrap();
    assert_eq!(flat.rotation, 90);
    assert_eq!(flat.stats.peak, 0);
}

#[test]
fn planner_avoids_digging_holes() {
    let mut board = TetrisBoard::default();
    // A flat ledge: horizontal I pieces at columns 0..=7 on row 0.
    board
        .try_apply_tetromino(Tetromino { kind: TetrominoKind::I, position: 1, rotation: 90 })
        .unwrap();
    board
        .try_apply_tetromino(Tetromino { kind: TetrominoKind::I, position: 5, rotation: 90 })
        .unwrap();
    // The best O placement fills the empty columns 8..=9 instead of
    // climbing the ledge.
    let placement = choose_placement(&board, TetrominoKind::O).unwrap();
    assert_eq!(placement.position, 9);
    assert_eq!(placement.stats.holes, 0);
    assert_eq!(placement.stats.peak, 1);
}

#[test]
fn planned_commands_are_shifts_then_rotations() {
    let cmds = plan_commands(5, 2, 90);
    assert_eq!(
        cmds,
        vec![Token::ShiftLeft, Token::ShiftLeft, Token::ShiftLeft, Token::Rotate]
    );
    let cmds = plan_commands(3, 6, 180);
    assert_eq!(
        cmds,
        vec![
            Token::ShiftRight,
            Token::ShiftRight,
            Token::ShiftRight,
            Token::Rotate,
            Token::Rotate
        ]
    );
    assert_eq!(plan_commands(4, 4, 0), vec![]);
}

#[test]
fn kind_letters_parse_and_print() {
    for (letter, kind) in [
        ("I", TetrominoKind::I),
        ("O", TetrominoKind::O),
        ("T", TetrominoKind::T),
        ("S", TetrominoKind::S),
        ("Z", TetrominoKind::Z),
        ("J", TetrominoKind::J),
        ("L", TetrominoKind::L),
    ] {
        assert_eq!(TetrominoKind::from_str(letter), Ok(kind));
        assert_eq!(kind.letter().to_string(), letter);
    }
    assert_eq!(TetrominoKind::from_str("X"), Err(()));
    assert_eq!(TetrominoKind::from_str(""), Err(()));
    assert_eq!(TetrominoKind::from_str("IO"), Err(()));
}

#[test]
fn positions_parse_as_decimal_fields() {
    assert_eq!(parse_position("1"), Ok(1));
    assert_eq!(parse_position("10"), Ok(10));
    assert_eq!(parse_position("007"), Ok(7));
    assert_eq!(parse_position(""), Err(()));
    assert_eq!(parse_position("3a"), Err(()));
    assert_eq!(parse_position("-2"), Err(()));
    assert_eq!(parse_position("99999999999999999999999999"), Err(()));
}

#[test]
fn piece_lines_parse_into_pieces() {
    let piece = Tetromino::from_parts("S", "4").unwrap();
    assert_eq!(piece.kind, TetrominoKind::S);
    assert_eq!(piece.position, 4);
    assert_eq!(piece.rotation, 0);
    assert!(Tetromino::from_parts("Q", "4").is_err());
    assert!(Tetromino::from_parts("S", "x").is_err());
}
