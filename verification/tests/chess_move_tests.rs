use plum_chess::board_location::BoardLocation;
use plum_chess::chess_move::{ChessMove, MoveSpecialness};
use plum_chess::chess_types::PieceKind;
use plum_chess::errors::Errors;
use plum_chess::game_state::GameState;

#[test]
fn coordinate_move_reads_and_writes() {
    let game = GameState::new_game();
    let m = ChessMove::from_long_algebraic(&game, " e2e4 ").unwrap();
    assert_eq!(m.start, (4, 1));
    assert_eq!(m.stop, (4, 3));
    assert!(matches!(m.move_specialness, MoveSpecialness::Regular));
    assert_eq!(m.to_long_algebraic(&game), "e2e4");

    let promo_game = GameState::from_fen("8/4P3/8/8/8/8/8/k6K w - - 0 1").unwrap();
    let m = ChessMove::from_long_algebraic(&promo_game, "e7e8Q").unwrap();
    assert!(matches!(m.move_specialness, MoveSpecialness::Promote(PieceKind::Queen)));
    assert_eq!(m.to_long_algebraic(&promo_game), "e7e8q");
    let m = ChessMove::from_long_algebraic(&promo_game, "e7e8n").unwrap();
    assert_eq!(m.to_long_algebraic(&promo_game), "e7e8n");
}

#[test]
fn coordinate_move_special_kinds() {
    let game = GameState::from_fen("r3k2r/8/8/8/8/8/8/R3K2R w KQkq - 0 1").unwrap();
    let m = ChessMove::from_long_algebraic(&game, "e1g1").unwrap();
    assert!(matches!(m.move_specialness, MoveSpecialness::Castling(((7, 0), (5, 0)))));
    let m = ChessMove::from_long_algebraic(&game, "e8c8").unwrap();
    assert!(matches!(m.move_specialness, MoveSpecialness::Castling(((0, 7), (3, 7)))));
    let no_rights = GameState::from_fen("r3k2r/8/8/8/8/8/8/R3K2R w - - 0 1").unwrap();
    let m = ChessMove::from_long_algebraic(&no_rights, "e1g1").unwrap();
    assert!(matches!(m.move_specialness, MoveSpecialness::Regular));

    let ep = GameState::from_fen("rnbqkbnr/ppp1p1pp/8/3pPp2/8/8/PPPP1PPP/RNBQKBNR w KQkq f6 0 3").unwrap();
    let m = ChessMove::from_long_algebraic(&ep, "e5f6").unwrap();
    assert!(matches!(m.move_specialness, MoveSpecialness::EnPassant((5, 4))));
}

#[test]
fn coordinate_move_errors() {
    let game = GameState::new_game();
    assert!(matches!(ChessMove::from_long_algebraic(&game, "e2"), Err(Errors::InvalidAlgebraic)));
    assert!(matches!(ChessMove::from_long_algebraic(&game, "z2e4"), Err(Errors::InvalidAlgebraic)));
    assert!(matches!(ChessMove::from_long_algebraic(&game, "e2e9"), Err(Errors::InvalidAlgebraic)));
    assert!(matches!(ChessMove::from_long_algebraic(&game, "e2e4x"), Err(Errors::InvalidAlgebraic)));
    match ChessMove::from_long_algebraic(&game, "e3e4") {
        Err(Errors::TryingToMoveNonExistantPiece((loc, fen))) => {
            assert_eq!(loc.binary_location, BoardLocation::from_long_algebraic("e3").unwrap().binary_location);
            assert_eq!(fen, game.get_fen());
        },
        _ => panic!("expected a missing piece"),
    }
}
