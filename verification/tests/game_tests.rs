use quarto_game::board::Cell;
use quarto_game::error::ErrorGame;
use quarto_game::game::Game;
use quarto_game::piece::Piece;
use quarto_game::player::{Human, Player, AI};

/// Start a new game and check players name
#[test]
fn game_start_new_game() {
    let new_game = Game::pvp("p1", "p2");
    assert_eq!(new_game.get_player(0).name(), "p1".to_string());
    assert_eq!(new_game.get_player(1).name(), "p2".to_string());

    assert_eq!(new_game.current_player().name(), "p1".to_string());
    assert_eq!(new_game.opponent_player().name(), "p2".to_string());

    let new_game = Game::start(
        Player::Human(Human::new("I'm human bro")),
        Player::Ai(AI::new()),
    );
    assert_eq!(new_game.get_player(0).name(), "I'm human bro".to_string());
    assert_eq!(new_game.get_player(1).name(), AI::default_name());

    assert_eq!(new_game.current_player().name(), "I'm human bro".to_string());
    assert_eq!(new_game.opponent_player().name(), AI::default_name());
}

#[test]
fn game_start_new_game_and_play_one_turn_with_struct() -> Result<(), ErrorGame> {
    const INDEX_PIECE: usize = 0;
    const INDEX_CELL: usize = 0;
    let mut game = Game::pvp("p1", "p2");

    let available_pieces = game.board.get_available_pieces();
    let nb_initial_piece = available_pieces.len();

    let selected_piece = Piece::from_index(&game.board, INDEX_PIECE).unwrap();
    println!("selected_piece = {}", selected_piece.as_text());

    game.play(selected_piece, Cell::from_index(&game.board, INDEX_CELL)?)?;

    assert_eq!(
        game.board.get_available_pieces().len(),
        nb_initial_piece - 1
    );

    match game.board.get_cells()[0].piece() {
        Some(p) => {
            assert_eq!(p, selected_piece)
        }
        None => panic!("No piece found"),
    }
    Ok(())
}

#[test]
fn game_start_new_game_and_play_one_turn_with_index() -> Result<(), ErrorGame> {
    let mut game = Game::pvp("p1", "p2");

    let available_pieces = game.board.get_available_pieces();
    let nb_initial_piece = available_pieces.len();

    let selected_piece = Piece::from_index(&game.board, 0).unwrap();

    game.play(selected_piece, Cell::from_index(&game.board, 0)?)?;

    assert_eq!(
        game.board.get_available_pieces().len(),
        nb_initial_piece - 1
    );
    match game.board.get_cells()[0].piece() {
        Some(p) => {
            assert_eq!(p, selected_piece)
        }
        None => panic!("No piece found"),
    }

    Ok(())
}

#[test]
fn game_start_new_game_and_play_multiple_turn() -> Result<(), ErrorGame> {
    let mut game = Game::pvp("p1", "p2");

    let piece_0 = game.play(
        Piece::from_index(&game.board, 0).unwrap(),
        Cell::from_index(&game.board, 0).unwrap(),
    )?;

    let piece_1 = game.play(
        Piece::from_index(&game.board, 1).unwrap(),
        Cell::from_index(&game.board, 5).unwrap(),
    )?;

    let piece_10 = game.play(
        Piece::from_index(&game.board, 10).unwrap(),
        Cell::from_index(&game.board, 12).unwrap(),
    )?;

    match game.board.get_cells()[0].piece() {
        Some(p) => {
            assert_eq!(p, piece_0)
        }
        None => panic!("No piece found"),
    }

    match game.board.get_cells()[5].piece() {
        Some(p) => {
            assert_eq!(p, piece_1)
        }
        None => panic!("No piece found"),
    }

    match game.board.get_cells()[12].piece() {
        Some(p) => {
            assert_eq!(p, piece_10)
        }
        None => panic!("No piece found"),
    }

    Ok(())
}

/// Play the same piece two time, should fail
#[test]
fn game_start_new_game_and_try_to_play_multiple_time_same_piece_should_fail(
) -> Result<(), ErrorGame> {
    let mut game = Game::pvp("p1", "p2");
    let piece = Piece::from_index(&game.board, 0).unwrap();

    game.play(piece, Cell::from_index(&game.board, 0).unwrap())?;
    assert_eq!(
        game.play(piece, Cell::from_index(&game.board, 1).unwrap()),
        Err(ErrorGame::PieceDoesNotBelongPlayable)
    );

    Ok(())
}

/// Play two pieces in the same cell should fail
#[test]
fn game_start_new_game_and_try_to_play_multiple_piece_same_cell_should_fail(
) -> Result<(), ErrorGame> {
    let mut game = Game::pvp("p1", "p2");

    let piece_error = Piece::from_index(&game.board, 0);

    game.play(
        Piece::from_index(&game.board, 0).unwrap(),
        Cell::from_index(&game.board, 0).unwrap(),
    )?;
    let play_result = game.play(
        Piece::from_index(&game.board, 1).unwrap(),
        Cell::from_index(&game.board, 0).unwrap(),
    );

    let cell_error = Cell::from_coordinate(&game.board, 0, 0);

    assert_eq!(
        play_result,
        Err(ErrorGame::CellIsNotEmpty(
            cell_error.unwrap(),
            piece_error.unwrap()
        ))
    );

    Ok(())
}

/// Remove piece multiple time
#[test]
fn game_start_new_game_and_try_to_remove_multiple_piece_should_fail() -> Result<(), ErrorGame> {
    let mut game = Game::pvp("p1", "p2");

    let piece_to_remove = Piece::from_index(&game.board, 0)?;
    game.board.remove(piece_to_remove)?;

    assert_eq!(
        game.board.remove(piece_to_remove),
        Err(ErrorGame::PieceDoesNotBelongPlayable)
    );

    Ok(())
}

#[test]
fn game_switch_player() {
    let mut game = Game::pvp("a", "b");
    assert_eq!(game.current_player().name(), "a".to_string());
    game.switch_current_player();
    assert_eq!(game.current_player().name(), "b".to_string());
    assert_eq!(game.opponent_player().name(), "a".to_string());
    game.switch_current_player();
    assert_eq!(game.current_player().name(), "a".to_string());
}

#[test]
fn game_error_messages() {
    assert_eq!(
        ErrorGame::IndexOutOfBound.message(),
        "The index is out of bound"
    );
    assert_eq!(
        ErrorGame::PieceDoesNotBelongPlayable.message(),
        "This piece has already been played"
    );
    assert_eq!(
        ErrorGame::PieceDoesNotExists.message(),
        "This piece does not exists"
    );
    assert_eq!(
        ErrorGame::NoBestMove.message(),
        "No best move has been found by the ai"
    );
    let cell = Cell::new(0).unwrap();
    let p = Piece::from_text("DEXC").unwrap();
    assert_eq!(
        ErrorGame::CellIsNotEmpty(cell, p).message(),
        "The cell is not empty and already has the piece DEXC"
    );
}
