use quarto_game::board::{Board, Cell};
use quarto_game::minmax_tree::MinMaxTree;
use quarto_game::moves::Move;
use quarto_game::piece::Piece;
use quarto_game::random::RandomAI;
use quarto_game::strategy::adequat_strategy;

fn piece(s: &str) -> Piece {
    Piece::from_text(s).unwrap()
}

#[test]
fn mod_test_init_strategy() {
    let board = Board::create();

    let strategy = adequat_strategy(&board);

    assert_eq!(strategy.name(), RandomAI::name());
}

#[test]
fn mod_test_mid_game_strategy() {
    let mut board = Board::create();

    let moves: Vec<Move> = vec![
        Move::new(piece("DFXC"), Cell::from_index(&board, 0).unwrap()),
        Move::new(piece("DETS"), Cell::from_index(&board, 0).unwrap()),
        Move::new(piece("WFTC"), Cell::from_index(&board, 6).unwrap()),
        Move::new(piece("DFTC"), Cell::from_index(&board, 7).unwrap()),
    ];
    for m in moves {
        // The second move aims at an occupied cell: the board rejects it and
        // stays as it was, so three pieces end up on the board.
        let _ = board.play_and_remove_piece(&m);
    }

    let strategy = adequat_strategy(&board);

    assert_eq!(strategy.name(), MinMaxTree::name());
}

#[test]
fn test_calc_move_random() {
    let board = Board::create();

    let move_result = RandomAI::new().calc_move(&board, None);

    assert!(move_result.is_ok());
}

#[test]
fn test_choose_piece_for_opponent_random() {
    let board = Board::create();
    let chosen = RandomAI::new().choose_piece_for_opponent(&board);
    // The chosen piece comes from the available pool.
    assert!(board.get_available_pieces().contains(&chosen));
}

/// A random move is always a legal move: an available piece into an empty
/// cell.
#[test]
fn test_random_move_is_legal() {
    let mut board = Board::create();
    let p = Piece::from_index(&board, 9).unwrap();
    board.play(p, Cell::from_index(&board, 3).unwrap()).unwrap();
    board.remove(p).unwrap();

    for _ in 0..20 {
        let mv = RandomAI::new().calc_move(&board, None).unwrap();
        assert!(board.get_available_pieces().contains(&mv.piece()));
        assert!(mv.cell().piece().is_none());
        assert!(board.get_cells()[mv.cell().to_index()].piece().is_none());
    }

    // With a fixed piece, the move plays that piece.
    let fixed = Piece::from_index(&board, 4).unwrap();
    for _ in 0..20 {
        let mv = RandomAI::new().calc_move(&board, Some(fixed)).unwrap();
        assert_eq!(mv.piece(), fixed);
    }
}
