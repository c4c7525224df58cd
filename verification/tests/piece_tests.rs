use quarto_game::board::{Board, Cell};
use quarto_game::error::ErrorGame;
use quarto_game::piece::{Color, Height, Hole, Piece, Shape};

fn piece(s: &str) -> Piece {
    Piece::from_text(s).unwrap()
}

#[test]
fn piece_test_equality_basic() {
    let piece_base = Piece::new(Color::Dark, Hole::Empty, Height::Small, Shape::Circle);
    let piece_base_equal = Piece::new(Color::Dark, Hole::Empty, Height::Small, Shape::Circle);

    let piece_white = Piece::new(Color::White, Hole::Empty, Height::Small, Shape::Circle);
    let piece_full = Piece::new(Color::Dark, Hole::Full, Height::Small, Shape::Circle);
    let piece_tall = Piece::new(Color::Dark, Hole::Full, Height::Tall, Shape::Circle);
    let piece_square = Piece::new(Color::Dark, Hole::Full, Height::Small, Shape::Square);

    let piece_base_clone = piece_base.clone();
    let piece_white_clone = piece_white.clone();

    assert_eq!(piece_base, piece_base_equal);
    assert_eq!(piece_base, piece_base_clone);
    assert_eq!(piece_base_equal, piece_base_clone);

    assert_ne!(piece_base, piece_white);
    assert_ne!(piece_base, piece_white_clone);
    assert_ne!(piece_base, piece_full);
    assert_ne!(piece_base, piece_tall);
    assert_ne!(piece_base, piece_square);
}

#[test]
fn piece_from_into_string_slice() {
    assert_eq!(
        Piece::new(Color::Dark, Hole::Empty, Height::Small, Shape::Circle),
        piece("DEXC")
    );

    assert_eq!(
        Piece::new(Color::Dark, Hole::Empty, Height::Small, Shape::Circle),
        piece("dexc")
    );
}

#[test]
fn piece_from_into_chars() {
    assert_eq!(
        Piece::new(Color::Dark, Hole::Empty, Height::Small, Shape::Circle),
        Piece::from_chars(['D', 'E', 'X', 'C']).unwrap()
    );
    assert_eq!(
        Piece::new(Color::Dark, Hole::Empty, Height::Small, Shape::Circle),
        Piece::from_chars(['d', 'e', 'x', 'c']).unwrap()
    );
}

#[test]
fn piece_test_are_cells_winning() {
    let v_3 = vec![
        Piece::new(Color::White, Hole::Empty, Height::Small, Shape::Circle),
        Piece::new(Color::White, Hole::Empty, Height::Small, Shape::Circle),
        Piece::new(Color::White, Hole::Empty, Height::Small, Shape::Circle),
    ];
    assert_eq!(Piece::check_piece_is_winning(&v_3), false);

    let v_4_1 = vec![
        Piece::new(Color::White, Hole::Empty, Height::Small, Shape::Circle),
        Piece::new(Color::Dark, Hole::Full, Height::Tall, Shape::Circle),
        Piece::new(Color::White, Hole::Empty, Height::Small, Shape::Circle),
        Piece::new(Color::White, Hole::Empty, Height::Small, Shape::Square),
    ];
    assert_eq!(Piece::check_piece_is_winning(&v_4_1), false);

    let v_4_2 = vec![
        Piece::new(Color::White, Hole::Empty, Height::Small, Shape::Circle),
        Piece::new(Color::White, Hole::Full, Height::Tall, Shape::Circle),
        Piece::new(Color::White, Hole::Empty, Height::Small, Shape::Circle),
        Piece::new(Color::White, Hole::Empty, Height::Small, Shape::Square),
    ];
    assert_eq!(Piece::check_piece_is_winning(&v_4_2), true);
}

#[test]
fn piece_test_piece_position() {
    let mut board = Board::create();

    let first_piece = Piece::from_index(&board, 0).unwrap();
    let last_piece = Piece::from_index(&board, 15).unwrap();
    // We play the first piece
    board
        .play(first_piece, Cell::from_index(&board, 0).unwrap())
        .unwrap();
    board.remove(first_piece).unwrap();

    // The second piece become the first piece
    assert_eq!(
        Piece::from_index(&board, 0),
        Err(ErrorGame::PieceDoesNotBelongPlayable)
    );
    // The first cell is not empty
    assert!(board.get_cells()[0].piece().is_some());

    // The index of the last piece is always 15
    assert_eq!(last_piece.to_index(&board).unwrap(), 15);
}

#[test]
fn piece_from_text_rejects_bad_input() {
    // Any length other than four fails.
    assert_eq!(Piece::from_text("DESCC"), None);
    assert_eq!(Piece::from_text("DEX"), None);
    assert_eq!(Piece::from_text(""), None);
    // An unknown letter fails, in any position.
    assert_eq!(Piece::from_text("ZEXC"), None);
    assert_eq!(Piece::from_text("DZXC"), None);
    assert_eq!(Piece::from_text("DEZC"), None);
    assert_eq!(Piece::from_text("DEXZ"), None);
    assert_eq!(Piece::from_chars(['D', 'E', 'S', 'Z']), None);
}

#[test]
fn piece_text_round_trip() {
    // Every one of the 16 pieces encodes to 4 letters and parses back.
    let board = Board::create();
    let pieces = board.get_available_pieces();
    assert_eq!(pieces.len(), 16);
    for p in pieces {
        let text = p.as_text();
        assert_eq!(text.len(), 4);
        assert_eq!(Piece::from_text(text.as_str()), Some(p));
    }
    assert_eq!(piece("DEXC").as_text(), "DEXC");
    assert_eq!(piece("wfts").as_text(), "WFTS");
}

#[test]
fn piece_index_round_trip() {
    let board = Board::create();
    for i in 0..16 {
        let p = Piece::from_index(&board, i).unwrap();
        assert_eq!(p.piece_index(), i);
    }
    // The canonical order: colour, then hole, then height, then shape.
    assert_eq!(piece("WEXC").piece_index(), 0);
    assert_eq!(piece("WEXS").piece_index(), 1);
    assert_eq!(piece("WETC").piece_index(), 2);
    assert_eq!(piece("WFXC").piece_index(), 4);
    assert_eq!(piece("DEXC").piece_index(), 8);
    assert_eq!(piece("DETS").piece_index(), 11);
    assert_eq!(piece("DFTS").piece_index(), 15);
}

#[test]
fn test_equality_basic() {
    let piece_base = Piece::new(Color::Dark, Hole::Empty, Height::Small, Shape::Circle);
    let piece_base_equal = Piece::new(Color::Dark, Hole::Empty, Height::Small, Shape::Circle);

    let piece_white = Piece::new(Color::White, Hole::Empty, Height::Small, Shape::Circle);
    let piece_full = Piece::new(Color::Dark, Hole::Full, Height::Small, Shape::Circle);
    let piece_tall = Piece::new(Color::Dark, Hole::Full, Height::Tall, Shape::Circle);
    let piece_square = Piece::new(Color::Dark, Hole::Full, Height::Small, Shape::Square);

    let piece_base_clone = piece_base.clone();
    let piece_white_clone = piece_white.clone();

    assert_eq!(piece_base, piece_base_equal);
    assert_eq!(piece_base, piece_base_clone);
    assert_eq!(piece_base_equal, piece_base_clone);

    assert_ne!(piece_base, piece_white);
    assert_ne!(piece_base, piece_white_clone);
    assert_ne!(piece_base, piece_full);
    assert_ne!(piece_base, piece_tall);
    assert_ne!(piece_base, piece_square);
}

#[test]
fn from_into_string_slice() {
    assert_eq!(
        Piece::new(Color::Dark, Hole::Empty, Height::Small, Shape::Circle),
        piece("DEXC")
    );

    assert_eq!(
        Piece::new(Color::Dark, Hole::Empty, Height::Small, Shape::Circle),
        piece("dexc")
    );
}

#[test]
fn from_into_chars() {
    assert_eq!(
        Piece::new(Color::Dark, Hole::Empty, Height::Small, Shape::Circle),
        Piece::from_chars(['D', 'E', 'X', 'C']).unwrap()
    );
    assert_eq!(
        Piece::new(Color::Dark, Hole::Empty, Height::Small, Shape::Circle),
        Piece::from_chars(['d', 'e', 'x', 'c']).unwrap()
    );
}

#[test]
fn test_are_cells_winning() {
    let v_3 = vec![
        Piece::new(Color::White, Hole::Empty, Height::Small, Shape::Circle),
        Piece::new(Color::White, Hole::Empty, Height::Small, Shape::Circle),
        Piece::new(Color::White, Hole::Empty, Height::Small, Shape::Circle),
    ];
    assert_eq!(Piece::check_piece_is_winning(&v_3), false);

    let v_4_1 = vec![
        Piece::new(Color::White, Hole::Empty, Height::Small, Shape::Circle),
        Piece::new(Color::Dark, Hole::Full, Height::Tall, Shape::Circle),
        Piece::new(Color::White, Hole::Empty, Height::Small, Shape::Circle),
        Piece::new(Color::White, Hole::Empty, Height::Small, Shape::Square),
    ];
    assert_eq!(Piece::check_piece_is_winning(&v_4_1), false);

    let v_4_2 = vec![
        Piece::new(Color::White, Hole::Empty, Height::Small, Shape::Circle),
        Piece::new(Color::White, Hole::Full, Height::Tall, Shape::Circle),
        Piece::new(Color::White, Hole::Empty, Height::Small, Shape::Circle),
        Piece::new(Color::White, Hole::Empty, Height::Small, Shape::Square),
    ];
    assert_eq!(Piece::check_piece_is_winning(&v_4_2), true);
}
