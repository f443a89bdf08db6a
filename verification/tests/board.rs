use tetris_engine::grid::{Stats, TetrisBoard, TetrisCell};
use tetris_engine::shape::{Tetromino, TetrominoKind};

const ALL_KINDS: [TetrominoKind; 7] = [
    TetrominoKind::I,
    TetrominoKind::O,
    TetrominoKind::T,
    TetrominoKind::S,
    TetrominoKind::Z,
    TetrominoKind::J,
    TetrominoKind::L,
];

fn occupied_cells(board: &TetrisBoard) -> Vec<(usize, usize)> {
    let mut cells = Vec::new();
    for row in 0..20 {
        for col in 0..10 {
            if board.is_occupied(row, col) {
                cells.push((row, col));
            }
        }
    }
    cells
}

#[test]
fn test_tetromino_blocks() {
    for &kind in &ALL_KINDS {
        for &rotation in &[0, 90, 180, 270] {
            let mut board = TetrisBoard::default();
            let piece = Tetromino { kind, position: 1, rotation };
            board.try_apply_tetromino(piece).unwrap();
            // On an empty board the piece settles with its bottom row at
            // row 0, so its top row lands at height - 1.
            let landing = piece.height() - 1;
            let mut expected: Vec<(usize, usize)> = piece
                .blocks()
                .iter()
                .map(|&(x, y)| (landing - y, x))
                .collect();
            expected.sort();
            let actual = occupied_cells(&board);
            assert_eq!(actual, expected, "tetromino_blocks_{:?}_{}", kind, rotation);
        }
    }
}

#[test]
fn test_tetris_board() {
    let mut board = TetrisBoard::default();

    // Horizontal I along the bottom row, columns 0..=3.
    board
        .try_apply_tetromino(Tetromino { kind: TetrominoKind::I, position: 1, rotation: 90 })
        .unwrap();
    board.clean_full_lines();
    assert_eq!(occupied_cells(&board), vec![(0, 0), (0, 1), (0, 2), (0, 3)]);

    // A second horizontal I stacks on top of the first.
    board
        .try_apply_tetromino(Tetromino { kind: TetrominoKind::I, position: 1, rotation: 270 })
        .unwrap();
    board.clean_full_lines();
    assert_eq!(
        occupied_cells(&board),
        vec![(0, 0), (0, 1), (0, 2), (0, 3), (1, 0), (1, 1), (1, 2), (1, 3)]
    );

    // Vertical I in column 8.
    board
        .try_apply_tetromino(Tetromino { kind: TetrominoKind::I, position: 9, rotation: 180 })
        .unwrap();
    board.clean_full_lines();
    for row in 0..4 {
        assert!(board.is_occupied(row, 8));
    }

    // Vertical I in column 9 (rotation 360 aliases rotation 0).
    board
        .try_apply_tetromino(Tetromino { kind: TetrominoKind::I, position: 10, rotation: 360 })
        .unwrap();
    board.clean_full_lines();
    for row in 0..4 {
        assert!(board.is_occupied(row, 9));
    }

    // An O in columns 4..=5 and one in columns 6..=7; the second one
    // completes rows 0 and 1.
    board
        .try_apply_tetromino(Tetromino { kind: TetrominoKind::O, position: 5, rotation: 90 })
        .unwrap();
    board.clean_full_lines();
    board
        .try_apply_tetromino(Tetromino { kind: TetrominoKind::O, position: 7, rotation: 90 })
        .unwrap();
    for col in 0..10 {
        assert!(board.is_occupied(0, col));
        assert!(board.is_occupied(1, col));
    }
    let cleared = board.clean_full_lines();
    assert_eq!(cleared, 2);
    // The leftover halves of the two vertical I pieces fall to the bottom.
    assert_eq!(occupied_cells(&board), vec![(0, 8), (0, 9), (1, 8), (1, 9)]);
}

#[test]
fn o_piece_rotation_is_a_no_op() {
    for &rotation in &[0, 90, 180, 270, 360, 450] {
        let turned = Tetromino { kind: TetrominoKind::O, position: 1, rotation };
        let reference = Tetromino { kind: TetrominoKind::O, position: 1, rotation: 0 };
        assert_eq!(turned.blocks(), reference.blocks());
        assert_eq!(turned.width(), 2);
        assert_eq!(turned.height(), 2);
    }
}

#[test]
fn widths_follow_rotation_symmetry() {
    let i0 = Tetromino { kind: TetrominoKind::I, position: 1, rotation: 0 };
    let i90 = Tetromino { kind: TetrominoKind::I, position: 1, rotation: 90 };
    assert_eq!(i0.width(), 1);
    assert_eq!(i90.width(), 4);
    let t0 = Tetromino { kind: TetrominoKind::T, position: 1, rotation: 0 };
    let t90 = Tetromino { kind: TetrominoKind::T, position: 1, rotation: 90 };
    assert_eq!(t0.width(), 3);
    assert_eq!(t90.width(), 2);
}

#[test]
fn clearing_twice_clears_nothing_the_second_time() {
    let mut board = TetrisBoard::default();
    // Fill rows 0 and 1 with five O pieces.
    for position in [1, 3, 5, 7, 9] {
        board
            .try_apply_tetromino(Tetromino { kind: TetrominoKind::O, position, rotation: 0 })
            .unwrap();
    }
    let first = board.clean_full_lines();
    assert_eq!(first, 2);
    let second = board.clean_full_lines();
    assert_eq!(second, 0);
    assert_eq!(occupied_cells(&board), vec![]);
}

#[test]
fn commit_and_clear_conserve_occupied_cells() {
    let mut board = TetrisBoard::default();
    let pieces = [
        Tetromino { kind: TetrominoKind::I, position: 1, rotation: 90 },
        Tetromino { kind: TetrominoKind::I, position: 5, rotation: 90 },
        Tetromino { kind: TetrominoKind::O, position: 9, rotation: 0 },
        Tetromino { kind: TetrominoKind::S, position: 3, rotation: 0 },
    ];
    for piece in pieces {
        let before = occupied_cells(&board).len();
        board.try_apply_tetromino(piece).unwrap();
        let cleared = board.clean_full_lines() as usize;
        let after = occupied_cells(&board).len();
        assert_eq!(after, before + 4 - 10 * cleared);
    }
}

#[test]
fn stats_count_peak_and_holes() {
    let empty = TetrisBoard::default();
    assert_eq!(empty.stats(), Stats { peak: 0, holes: 0 });

    // An S piece leaves one covered empty cell: column 2, row 0 sits under
    // the occupied cell at row 1.
    let mut board = TetrisBoard::default();
    board
        .try_apply_tetromino(Tetromino { kind: TetrominoKind::S, position: 1, rotation: 0 })
        .unwrap();
    assert_eq!(board.stats(), Stats { peak: 1, holes: 1 });

    let mut tall = TetrisBoard::default();
    tall.try_apply_tetromino(Tetromino { kind: TetrominoKind::I, position: 1, rotation: 0 })
        .unwrap();
    assert_eq!(tall.stats(), Stats { peak: 3, holes: 0 });
}

#[test]
fn board_rejects_piece_when_column_is_blocked() {
    let mut board = TetrisBoard::default();
    for _ in 0..5 {
        board
            .try_apply_tetromino(Tetromino { kind: TetrominoKind::I, position: 1, rotation: 0 })
            .unwrap();
    }
    // Column 0 now reaches the ceiling; nothing 1 column wide fits there,
    // and a sixth vertical I is rejected without changing the board.
    let before = occupied_cells(&board);
    let result =
        board.try_apply_tetromino(Tetromino { kind: TetrominoKind::I, position: 1, rotation: 0 });
    assert!(result.is_err());
    assert_eq!(occupied_cells(&board), before);
}

#[test]
fn default_cell_is_empty() {
    let cell = TetrisCell::default();
    assert!(!cell.is_occupied());
    assert!(TetrisCell::Occupied.is_occupied());
}

#[test]
fn board_width_is_ten() {
    let board = TetrisBoard::default();
    assert_eq!(board.width(), 10);
}
