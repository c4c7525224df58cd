use quarto_game::board::{Board, Cell};
use quarto_game::minmax_tree::MinMaxTree;
use quarto_game::moves::Move;
use quarto_game::piece::Piece;
use quarto_game::score::Score;

fn piece(s: &str) -> Piece {
    Piece::from_text(s).unwrap()
}

fn late_game(nb_piece_left: usize) -> Vec<Piece> {
    let mut pieces: Vec<Piece> = vec![
        piece("WETS"),
        piece("DFTC"),
        piece("DFTS"),
        piece("DFXS"),
        piece("WFTS"),
        piece("WFXS"),
        piece("DETS"),
        piece("DFXC"),
        piece("DEXS"),
        piece("WEXC"),
        piece("WFXC"),
        piece("WETC"),
        piece("DETC"),
        piece("WFTC"),
        piece("WEXS"),
        piece("DEXC"),
    ];

    let mut nb_piece_left = nb_piece_left;
    while nb_piece_left > 0 {
        pieces.remove(pieces.len() - 1);
        nb_piece_left -= 1;
    }
    pieces
}

fn fill_board(nb_piece_left: usize) -> Board {
    let mut board = Board::create();

    let cloned_board = board.clone();

    //Play the first piece in first cell of the board
    for (cell, piece) in (0..14)
        .map(|i| Cell::from_index(&cloned_board, i).unwrap())
        .zip(late_game(nb_piece_left))
    {
        board.play(piece, cell).unwrap();
        board.remove(piece).unwrap();
    }

    board
}

#[test]
fn minmax_tree_test_minmax_tree_compare() {
    let depth: usize = 2;
    let nb_piece_left = 6;
    let board = fill_board(nb_piece_left);

    let piece_to_play = Piece::from_index(&board, 1).unwrap();
    // Tree minmax
    let mut minmax_tree = MinMaxTree::new(depth, true).with_piece(piece_to_play.clone());
    minmax_tree.minmax(&board);

    let selected_move = minmax_tree.selected_move.unwrap();

    assert_eq!(
        minmax_tree.calc_move(&board, Some(piece_to_play)).unwrap(),
        selected_move
    );
}

#[test]
fn minmax_tree_test_minmax_tree_choose_opponent_piece() {
    let depth: usize = 2;
    let nb_piece_left = 10;
    let board = fill_board(nb_piece_left);

    // Tree minmax
    let mut minmax_tree = MinMaxTree::new(depth, true);
    let chosen = minmax_tree.choose_piece_for_opponent(&board);

    // The chosen piece is never absent from the available pool.
    assert!(board.get_available_pieces().contains(&chosen));
}

#[test]
fn minmax_tree_test_depth_0_eq_current_board_score() {
    let board = fill_board(5);
    let mut minmax = MinMaxTree::new(0, true);
    minmax.minmax(&board);

    assert_eq!(Score::calc_score(&board), minmax.score);
}

#[test]
fn test_debug() {
    let mut board = Board::create();

    board
        .play_and_remove_piece(&Move::new(
            piece("WETS"),
            Cell::from_index(&board, 2).unwrap(),
        ))
        .unwrap();
    board
        .play_and_remove_piece(&Move::new(
            piece("DEXC"),
            Cell::from_index(&board, 5).unwrap(),
        ))
        .unwrap();
    board
        .play_and_remove_piece(&Move::new(
            piece("DFTS"),
            Cell::from_index(&board, 7).unwrap(),
        ))
        .unwrap();

    let mut algo = MinMaxTree::new(2, true);
    algo.minmax(&board);
    let piece_opponent = algo.choose_piece_for_opponent(&board);
    let worst_score = Score::Point(5);
    for m in board.get_available_moves_from_piece(piece_opponent) {
        let mut board_clone = board.clone();
        board_clone.play_and_remove_piece(&m).unwrap();
        let current_score = Score::calc_score(&board_clone);
        assert!(current_score <= worst_score);
    }
}

#[test]
fn test_debug_2() {
    let mut board = Board::create();
    let moves = vec![
        Move::new(piece("DETS"), Cell::from_index(&board, 5).unwrap()),
        Move::new(piece("DFTS"), Cell::from_index(&board, 6).unwrap()),
        Move::new(piece("WFXC"), Cell::from_index(&board, 9).unwrap()),
        Move::new(piece("WETC"), Cell::from_index(&board, 10).unwrap()),
        Move::new(piece("DFTC"), Cell::from_index(&board, 12).unwrap()),
        Move::new(piece("WFTC"), Cell::from_index(&board, 13).unwrap()),
        Move::new(piece("WFXS"), Cell::from_index(&board, 14).unwrap()),
        Move::new(piece("DEXC"), Cell::from_index(&board, 15).unwrap()),
    ];
    for m in moves {
        board.play_and_remove_piece(&m).unwrap();
    }

    let mut algo = MinMaxTree::new(3, true);
    let best_move = algo.calc_move(&board, None);
    assert!(best_move.is_ok());
}

#[test]
fn bench_minimax() {
    let board = Board::create();
    let mut algo = MinMaxTree::new(2, true);

    algo.minmax(&board);
}

#[test]
fn test_calc_adequat_depth() {
    assert_eq!(MinMaxTree::calc_adequat_depth(0), 2);
    assert_eq!(MinMaxTree::calc_adequat_depth(7), 2);
    assert_eq!(MinMaxTree::calc_adequat_depth(8), 3);
    assert_eq!(MinMaxTree::calc_adequat_depth(10), 3);
    assert_eq!(MinMaxTree::calc_adequat_depth(11), 4);
    assert_eq!(MinMaxTree::calc_adequat_depth(15), 4);
    assert_eq!(MinMaxTree::calc_adequat_depth(16), 0);
}

/// The move returned under a piece constraint always plays that piece.
#[test]
fn test_calc_move_plays_the_given_piece() {
    let board = fill_board(8);
    let pool = board.get_available_pieces();
    for position in [0usize, 3, 7] {
        let constraint = pool[position];
        let mut algo = MinMaxTree::new(2, true);
        let mv = algo.calc_move(&board, Some(constraint)).unwrap();
        assert_eq!(mv.piece(), constraint);
    }
}

/// Golden fixture: a fixed mid-game position searched at depth 3 with a
/// fixed piece returns one specific move.
#[test]
fn test_best_play_from_start() {
    let moves = vec![
        (piece("DFTC"), 1),
        (piece("DFTS"), 2),
        (piece("WFTS"), 4),
        (piece("DFXS"), 6),
        (piece("DETC"), 9),
        (piece("WFXS"), 15),
    ];

    let mut board = Board::create();

    for (piece_current, index_board) in moves {
        board
            .play(
                piece_current,
                Cell::from_index(&board, index_board).unwrap(),
            )
            .unwrap();
        board.remove(piece_current).unwrap();
    }

    let mut minmax = MinMaxTree::new(3, true);
    let best_first_move = minmax.calc_move(&board, Some(piece("DEXS"))).unwrap();

    let expected_cell = Cell::from_index(&board, 3).unwrap();
    assert_eq!(best_first_move, Move::new(piece("DEXS"), expected_cell));
}
