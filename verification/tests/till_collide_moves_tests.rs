use plum_chess::game_state::GameState;
use plum_chess::till_collide_moves::{
    does_move_create_check, generate_king_moves_till_collide, generate_pawn_moves_till_collide,
    move_board_location, CoordMoveError, MoveSpecialness,
};

#[test]
fn test_pawn_moves() -> Result<(), CoordMoveError> {
    let test_game = GameState::from_fen("3k4/8/8/8/8/8/4P3/3K4 w - - 0 1").unwrap();
    let moves = generate_pawn_moves_till_collide(&test_game, &(4, 1))?;
    assert_eq!(moves.len(), 2);

    let test_game = GameState::from_fen("3k4/8/8/8/8/3p4/4P3/3K4 w - - 0 1").unwrap();
    let moves = generate_pawn_moves_till_collide(&test_game, &(4, 1))?;
    assert_eq!(moves.len(), 3);

    let test_game = GameState::from_fen("3k4/4P3/8/8/8/8/8/3K4 w - - 0 1").unwrap();
    let moves = generate_pawn_moves_till_collide(&test_game, &(4, 6))?;
    assert_eq!(moves.len(), 8);

    let test_game = GameState::from_fen("3k4/8/8/8/8/3pP3/4P3/3K4 w - - 0 1").unwrap();
    let moves = generate_pawn_moves_till_collide(&test_game, &(4, 1))?;
    assert_eq!(moves.len(), 1);

    let test_game = GameState::from_fen("3k4/8/8/8/8/3pP3/4P3/3K4 w - - 0 1").unwrap();
    let moves = generate_pawn_moves_till_collide(&test_game, &(4, 2))?;
    assert_eq!(moves.len(), 1);

    Ok(())
}

#[test]
fn coordinate_generation_edges() {
    let game = GameState::new_game();
    assert_eq!(
        generate_pawn_moves_till_collide(&game, &(4, 0)).err(),
        Some(CoordMoveError::MoveStartLocationIsNotValidPieceType)
    );
    assert_eq!(
        generate_pawn_moves_till_collide(&game, &(4, 4)).err(),
        Some(CoordMoveError::MoveStartLocationIsNotValidPieceType)
    );
    let moves = generate_pawn_moves_till_collide(&game, &(4, 1)).unwrap();
    assert_eq!(moves.len(), 2);
    assert!(matches!(moves[1].move_type, MoveSpecialness::EnPassant((4, 2))));
    assert!(does_move_create_check(&game, &moves[0]));
    assert_eq!(move_board_location(&(7, 7), 1, 0).err(), Some(CoordMoveError::OutOfBounds));
    assert_eq!(move_board_location(&(3, 3), -1, 2).unwrap(), (2, 5));
    assert_eq!(generate_king_moves_till_collide(&game, &(4, 0)).unwrap().len(), 0);
}
