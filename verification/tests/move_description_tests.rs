use plum_chess::chess_errors::ChessErrors;
use plum_chess::chess_types::PieceKind;
use plum_chess::game_state::GameState;
use plum_chess::move_description::{MoveDescription, MoveTypes};
use plum_chess::piece_team::PieceTeam;

#[test]
fn test_moves_1() {
    let new_game = GameState::new_game();
    let move_text = "e2e4";
    let move_description = MoveDescription::from_long_algebraic(move_text, &new_game).unwrap();
    assert!(matches!(move_description.vector.piece_at_start.class, PieceKind::Pawn));
    assert!(matches!(move_description.vector.piece_at_start.team, PieceTeam::Light));
    assert!(matches!(move_description.move_type, MoveTypes::DoubleStep(_)));
    assert!(matches!(move_description.capture_status, None));
}

#[test]
fn move_description_reads_special_moves() {
    let castle = GameState::from_fen("r3k2r/8/8/8/8/8/8/R3K2R w KQkq - 0 1").unwrap();
    let m = MoveDescription::from_long_algebraic("e1g1", &castle).unwrap();
    match m.move_type {
        MoveTypes::Castling(rook) => {
            assert_eq!(rook.piece_at_start.class, PieceKind::Rook);
            assert_eq!(rook.destination.to_long_algebraic(), "f1");
        }
        _ => panic!("expected castling"),
    }
    assert_eq!(m.get_long_algebraic(), "e1g1");

    let promo = GameState::from_fen("4k3/P7/8/8/8/8/8/4K3 w - - 0 1").unwrap();
    let m = MoveDescription::from_long_algebraic(" a7a8Q ", &promo).unwrap();
    assert!(matches!(m.move_type, MoveTypes::Promote(p) if p.class == PieceKind::Queen));
    assert_eq!(m.get_long_algebraic(), "a7a8q");

    let ep = GameState::from_fen("4k3/8/8/3pP3/8/8/8/4K3 w - d6 0 1").unwrap();
    let m = MoveDescription::from_long_algebraic("e5d6", &ep).unwrap();
    assert!(matches!(m.move_type, MoveTypes::EnPassant));
    assert_eq!(m.capture_status.unwrap().class, PieceKind::Pawn);
    assert_eq!(m.capture_status.unwrap().team, PieceTeam::Dark);
}

#[test]
fn move_description_rejects_bad_text() {
    let game = GameState::new_game();
    assert!(matches!(
        MoveDescription::from_long_algebraic("e2", &game),
        Err(ChessErrors::InvalidAlgebraicString(s)) if s == "e2"
    ));
    assert!(matches!(
        MoveDescription::from_long_algebraic("z2e4", &game),
        Err(ChessErrors::InvalidAlgebraicChar('z'))
    ));
    assert!(matches!(
        MoveDescription::from_long_algebraic("e2e9", &game),
        Err(ChessErrors::InvalidAlgebraicChar('9'))
    ));
    assert!(matches!(
        MoveDescription::from_long_algebraic("e4e5", &game),
        Err(ChessErrors::TryToViewOrEditEmptySquare(_))
    ));
    assert!(matches!(
        MoveDescription::from_long_algebraic("e2e4x", &game),
        Err(ChessErrors::InvalidAlgebraicString(_))
    ));
}

#[test]
fn read_move_text_is_written_back() {
    let game = GameState::from_fen("8/4P3/8/8/8/8/8/k6K w - - 0 1").unwrap();
    let promotion = MoveDescription::from_long_algebraic("  e7e8Q ", &game).unwrap();
    assert_eq!(promotion.get_long_algebraic(), "e7e8q");
    let start = GameState::new_game();
    let step = MoveDescription::from_long_algebraic("e2e4", &start).unwrap();
    assert_eq!(step.get_long_algebraic(), "e2e4");
    let longer = MoveDescription::from_long_algebraic("g1f3xyz", &start).unwrap();
    assert_eq!(longer.get_long_algebraic(), "g1f3");
}
