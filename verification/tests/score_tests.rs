use quarto_game::board::{Board, Cell};
use quarto_game::moves::Move;
use quarto_game::piece::Piece;
use quarto_game::score::Score;

fn piece(s: &str) -> Piece {
    Piece::from_text(s).unwrap()
}

fn test_scenario(moves: Vec<(Piece, Score, usize)>) {
    let mut board = Board::create();

    for (piece_current, score_current, cell_index) in moves {
        let cell = Cell::from_index(&board, cell_index).unwrap();

        board.play(piece_current, cell).unwrap();
        board.remove(piece_current).unwrap();

        let score = Score::calc_score(&board);
        assert_eq!(score, score_current);
    }
}

#[test]
fn score_test_all_direction_should_have_same_score() {
    let pieces_horizontal_second_line = vec![
        (
            piece("DFTC"),
            Score::Point(0),
            Board::coordinate_to_index(0, 1).unwrap(),
        ),
        (
            piece("DFXS"),
            Score::Point(2),
            Board::coordinate_to_index(1, 1).unwrap(),
        ),
        (
            piece("WETS"),
            Score::Point(4),
            Board::coordinate_to_index(2, 1).unwrap(),
        ),
        (
            piece("WEXS"),
            Score::Point(8),
            Board::coordinate_to_index(3, 1).unwrap(),
        ),
    ];
    let pieces_vertical_third_line = vec![
        (
            piece("DFTC"),
            Score::Point(0),
            Board::coordinate_to_index(2, 0).unwrap(),
        ),
        (
            piece("DFXS"),
            Score::Point(2),
            Board::coordinate_to_index(2, 1).unwrap(),
        ),
        (
            piece("WETS"),
            Score::Point(4),
            Board::coordinate_to_index(2, 2).unwrap(),
        ),
        (
            piece("WEXS"),
            Score::Point(8),
            Board::coordinate_to_index(2, 3).unwrap(),
        ),
    ];
    let pieces_diagonal_top_left_to_bottom_right = vec![
        (
            piece("DFTC"),
            Score::Point(0),
            Board::coordinate_to_index(0, 0).unwrap(),
        ),
        (
            piece("DFXS"),
            Score::Point(2),
            Board::coordinate_to_index(1, 1).unwrap(),
        ),
        (
            piece("WETS"),
            Score::Point(4),
            Board::coordinate_to_index(2, 2).unwrap(),
        ),
        (
            piece("WEXS"),
            Score::Point(8),
            Board::coordinate_to_index(3, 3).unwrap(),
        ),
    ];
    let pieces_diagonal_top_right_to_bottom_left = vec![
        (
            piece("DFTC"),
            Score::Point(0),
            Board::coordinate_to_index(3, 0).unwrap(),
        ),
        (
            piece("DFXS"),
            Score::Point(2),
            Board::coordinate_to_index(2, 1).unwrap(),
        ),
        (
            piece("WETS"),
            Score::Point(4),
            Board::coordinate_to_index(1, 2).unwrap(),
        ),
        (
            piece("WEXS"),
            Score::Point(8),
            Board::coordinate_to_index(0, 3).unwrap(),
        ),
    ];

    for scenario in vec![
        pieces_horizontal_second_line,
        pieces_vertical_third_line,
        pieces_diagonal_top_left_to_bottom_right,
        pieces_diagonal_top_right_to_bottom_left,
    ] {
        test_scenario(scenario);
    }
}

#[test]
fn score_test_calc_basic_score_no_point() {
    test_scenario(vec![
        (piece("DFTC"), Score::Point(0), 0),
        (piece("DFXS"), Score::Point(0), 6),
        (piece("WEXS"), Score::Point(0), 15),
    ]);
}

#[test]
fn score_test_calc_basic_score() {
    test_scenario(vec![
        (piece("WETS"), Score::Point(0), 0),
        (piece("DFTC"), Score::Point(1), 1),
        (piece("DFTS"), Score::Point(5), 2),
        (piece("WFTS"), Score::Point(8), 4),
        (piece("DFXS"), Score::Point(13), 6),
        (piece("DETC"), Score::Point(17), 10),
    ]);
}

#[test]
fn score_test_calc_basic_score_2() {
    test_scenario(vec![
        (piece("WETS"), Score::Point(0), 0),
        (piece("DFTS"), Score::Point(2), 2),
        (piece("WFTS"), Score::Point(5), 4),
        (piece("DFXS"), Score::Point(10), 6),
        (piece("DETC"), Score::Point(11), 9),
        (piece("WFXS"), Score::Point(13), 15),
        (piece("DEXS"), Score::Point(18), 14),
    ]);
}

#[test]
fn score_test_calc_basic_score_line_full_loosing() {
    test_scenario(vec![
        (piece("WETS"), Score::Point(0), 0),
        (piece("DFTC"), Score::Point(1), 1),
        (piece("DFTS"), Score::Point(5), 2),
        (piece("DFXS"), Score::Point(8), 3),
        (piece("WFTS"), Score::Point(11), 4),
    ]);
}

#[test]
fn score_test_calc_winning_score() {
    test_scenario(vec![
        (
            piece("DFTC"),
            Score::Point(0),
            Board::coordinate_to_index(0, 0).unwrap(),
        ),
        (
            piece("WETS"),
            Score::Point(1),
            Board::coordinate_to_index(1, 1).unwrap(),
        ),
        (
            piece("WEXS"),
            Score::Point(4),
            Board::coordinate_to_index(1, 2).unwrap(),
        ),
        (
            piece("WFTS"),
            Score::Point(9),
            Board::coordinate_to_index(2, 1).unwrap(),
        ),
        (
            piece("DEXS"),
            Score::Point(12),
            Board::coordinate_to_index(1, 3).unwrap(),
        ),
        (
            piece("DFTS"),
            Score::Win,
            Board::coordinate_to_index(1, 0).unwrap(),
        ),
    ]);
}

#[test]
fn score_test_score_compare() {
    assert!(Score::Point(10) < Score::Point(20));
    assert!(Score::Point(1) > Score::Point(0));
    assert!(Score::Point(0) >= Score::Point(0));
    assert!(Score::Point(50) == Score::Point(50));

    assert!(Score::Point(50) < Score::Win);
    assert!(Score::Win == Score::Win);
}

#[test]
fn bench_score() {
    let mut board = Board::create();
    let moves = vec![
        Move::new(piece("DETS"), Cell::from_index(&board, 5).unwrap()),
        Move::new(piece("DFTS"), Cell::from_index(&board, 6).unwrap()),
        Move::new(piece("WFXC"), Cell::from_index(&board, 9).unwrap()),
        Move::new(piece("WETC"), Cell::from_index(&board, 10).unwrap()),
        Move::new(piece("DFTC"), Cell::from_index(&board, 12).unwrap()),
        Move::new(piece("WFTC"), Cell::from_index(&board, 13).unwrap()),
        Move::new(piece("WFXS"), Cell::from_index(&board, 14).unwrap()),
        Move::new(piece("DEXC"), Cell::from_index(&board, 15).unwrap()),
    ];
    for m in moves {
        board.play_and_remove_piece(&m).unwrap();
    }

    Score::calc_score(&board);
}

#[test]
fn test_score_default_is_zero_points() {
    assert_eq!(Score::default(), Score::Point(0));
}

/// A won board scores exactly `Win`; the same board one move earlier scores
/// a finite number of points.
#[test]
fn test_winning_board_scores_win() {
    let mut board = Board::create();
    let plays: Vec<(Piece, usize)> = vec![
        (piece("DEXC"), 0),
        (piece("DFXS"), 5),
        (piece("DETC"), 10),
    ];
    for play in &plays {
        board
            .play(play.0, Cell::from_index(&board, play.1).unwrap())
            .unwrap();
        board.remove(play.0).unwrap();
    }
    assert!(Score::calc_score(&board) != Score::Win);
    board
        .play(piece("DFTS"), Cell::from_index(&board, 15).unwrap())
        .unwrap();
    assert_eq!(Score::calc_score(&board), Score::Win);
}

#[test]
fn test_score_compare() {
    assert!(Score::Point(10) < Score::Point(20));
    assert!(Score::Point(1) > Score::Point(0));
    assert!(Score::Point(0) >= Score::Point(0));
    assert!(Score::Point(50) == Score::Point(50));

    assert!(Score::Point(50) < Score::Win);
    assert!(Score::Win == Score::Win);
}
