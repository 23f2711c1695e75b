use plum_chess::apply_move_to_game::apply_move_to_game_unchecked;
use plum_chess::board_location::BoardLocation;
use plum_chess::chess_errors::ChessErrors;
use plum_chess::game_state::GameState;
use plum_chess::generate_all_moves::generate_all_moves;
use plum_chess::generate_moves_level_5::generate_moves_level_5;
use plum_chess::inspect_check::inspect_check;
use plum_chess::inspect_if_king_is_under_check::inspect_if_game_has_king_in_check;
use plum_chess::legal_move_checks::is_king_in_check;
use plum_chess::move_description::MoveDescription;
use plum_chess::piece_record::{view_piece_at_location, PieceRecord};
use plum_chess::types_of_check::TypesOfCheck;

fn piece_on(game: &GameState, square: &str) -> PieceRecord {
    view_piece_at_location(game, BoardLocation::from_long_algebraic(square).unwrap()).unwrap()
}

#[test]
fn test_inspect_check() {
    let game = GameState::from_fen("rnb1kbnr/ppp1pppp/8/8/4P3/8/PPP2PPP/RNBqKBNR w KQkq - 0 4").unwrap();
    let check_inspection = inspect_check(&game, None).unwrap();
    assert!(matches!(check_inspection, Some(TypesOfCheck::UnclassifiedCheck(_, _))));
    let check_inspection = inspect_check(&game, Some(piece_on(&game, "d1"))).unwrap();
    assert!(matches!(check_inspection, Some(TypesOfCheck::SingleCheck(_, _))));

    let game = GameState::from_fen("Q4k2/7K/8/8/8/8/8/8 b - - 1 1").unwrap();
    let check_inspection = inspect_check(&game, Some(piece_on(&game, "a8"))).unwrap();
    assert!(matches!(check_inspection, Some(TypesOfCheck::SingleCheck(_, _))));

    let game = GameState::from_fen("Q5k1/8/6K1/8/8/8/8/8 b - - 1 1").unwrap();
    let check_inspection = inspect_check(&game, Some(piece_on(&game, "a8"))).unwrap();
    assert!(matches!(check_inspection, Some(TypesOfCheck::Checkmate(_, _))));

    let game = GameState::from_fen("Q4k2/3N4/8/6K1/8/8/8/8 b - - 3 2").unwrap();
    let check_inspection = inspect_check(&game, Some(piece_on(&game, "d7"))).unwrap();
    assert!(matches!(check_inspection, Some(TypesOfCheck::DoubleCheck(_, _, _))));

    let game = GameState::from_fen("Q4k2/8/2N5/6K1/8/8/8/8 b - - 3 2").unwrap();
    let check_inspection = inspect_check(&game, Some(piece_on(&game, "c6"))).unwrap();
    assert!(matches!(check_inspection, Some(TypesOfCheck::DiscoveryCheck(_, _))));
}

#[test]
fn inspect_check_reports_no_check_and_names_the_pieces() {
    let game = GameState::new_game();
    assert!(inspect_check(&game, None).unwrap().is_none());

    let game = GameState::from_fen("Q5k1/8/6K1/8/8/8/8/8 b - - 1 1").unwrap();
    match inspect_check(&game, Some(piece_on(&game, "a8"))).unwrap() {
        Some(TypesOfCheck::Checkmate(king, checker)) => {
            assert_eq!(king.location.binary_location, BoardLocation::from_long_algebraic("g8").unwrap().binary_location);
            assert_eq!(checker.location.binary_location, BoardLocation::from_long_algebraic("a8").unwrap().binary_location);
        },
        _ => panic!("expected mate"),
    }
    match inspect_check(&game, None).unwrap() {
        Some(TypesOfCheck::UnclassifiedCheck(checker, king)) => {
            assert_eq!(king.location.binary_location, BoardLocation::from_long_algebraic("g8").unwrap().binary_location);
            assert_eq!(checker.location.binary_location, BoardLocation::from_long_algebraic("a8").unwrap().binary_location);
        },
        _ => panic!("expected an unclassified check"),
    }
}

#[test]
fn inspect_check_without_king_is_an_error() {
    let game = GameState::from_fen("Q7/8/8/8/8/8/8/7K b - - 0 1").unwrap();
    assert!(inspect_check(&game, None).is_err());
    assert!(inspect_if_game_has_king_in_check(&game).is_err());
}

#[test]
fn king_in_check_is_detected() {
    let game = GameState::from_fen("rnb1kbnr/ppp1pppp/8/8/4P3/8/PPP2PPP/RNBqKBNR w KQkq - 0 4").unwrap();
    assert_eq!(inspect_if_game_has_king_in_check(&game).unwrap(), true);
    let game = GameState::new_game();
    assert_eq!(inspect_if_game_has_king_in_check(&game).unwrap(), false);
}

#[test]
fn test_generate_moves_level_5() {
    let game = GameState::from_fen("rnb1kbnr/pppp1ppp/8/4p3/3PP2q/8/PPP2PPP/RNBQKBNR w KQkq - 1 3").unwrap();
    let moves = generate_moves_level_5(&piece_on(&game, "f8"), &game).unwrap();
    assert_eq!(moves.len(), 5);
    let mut check_count = 0;
    for m in moves {
        if m.checked_move.check_status.is_some() {
            check_count += 1;
        }
    }
    assert_eq!(check_count, 1);

    let moves = generate_moves_level_5(&piece_on(&game, "f2"), &game).unwrap();
    assert_eq!(moves.len(), 0);

    let game = GameState::from_fen("8/6k1/8/4pp2/3q4/6B1/p7/5KR1 w - - 0 1").unwrap();
    let moves = generate_moves_level_5(&piece_on(&game, "g3"), &game).unwrap();
    assert_eq!(moves.len(), 6);
    let mut check_count = 0;
    for m in moves {
        if let Some(_) = m.checked_move.check_status {
            check_count += 1;
        }
    }
    assert_eq!(check_count, 6);

    let game = GameState::from_fen("rnb1kbnr/pppp1ppp/8/4p3/3Pq3/2P5/PP3PPP/RNBQKBNR w KQkq - 0 4").unwrap();
    let moves = generate_moves_level_5(&piece_on(&game, "e1"), &game).unwrap();
    assert_eq!(moves.len(), 1);
    let moves = generate_moves_level_5(&piece_on(&game, "f1"), &game).unwrap();
    assert_eq!(moves.len(), 1);
    let moves = generate_moves_level_5(&piece_on(&game, "g1"), &game).unwrap();
    assert_eq!(moves.len(), 1);
    let moves = generate_moves_level_5(&piece_on(&game, "d1"), &game).unwrap();
    assert_eq!(moves.len(), 1);
    let moves = generate_moves_level_5(&piece_on(&game, "c1"), &game).unwrap();
    assert_eq!(moves.len(), 1);
    let moves = generate_moves_level_5(&piece_on(&game, "f2"), &game).unwrap();
    assert_eq!(moves.len(), 0);
}

#[test]
fn test_generate_moves_level_5_extras() {
    let game = GameState::from_fen("8/2p5/3p4/KP5r/5R1k/8/4P1P1/8 b - - 1 1").unwrap();
    let moves = generate_all_moves(&game).unwrap();
    assert_eq!(moves.len(), 2);
}

#[test]
fn level_5_moves_carry_the_position_after_them() {
    let game = GameState::new_game();
    let moves = generate_moves_level_5(&piece_on(&game, "g1"), &game).unwrap();
    assert_eq!(moves.len(), 2);
    for m in &moves {
        assert!(m.checked_move.check_status.is_none());
        assert_eq!(m.game_after_move.fullmove_number, 1);
    }
    // Each pawn on its start rank yields its single step, its double step
    // as a double-step move, and the double-step square again as a regular
    // move: 8 * 3 pawn moves and 4 knight moves.
    let all = generate_all_moves(&game).unwrap();
    assert_eq!(all.len(), 28);
}

#[test]
fn test_setup_complex_position() {
    let mut game = GameState::from_fen("rn1qkbnr/ppp1pppp/8/3p1b2/3P4/4P3/PPP2PPP/RNBQKBNR w KQkq - 1 3").unwrap();
    let moves = vec![
        " c2c3", "f5b1", "a1b1", "e7e6", "g1f3", "f7f6", "f1b5", "b8d7", "e1g1", "f8a3", "b2a3", "e8f7", "d1d3",
        "b7b6", "e3e4", "d5e4", "d3e4", "d7e5", "d4e5", "f6e5", "f3e5", "f7f6", "c1f4", "g7g6", "b1d1", "d8d1",
        "f1d1", "h7h6", "e5d7",
    ];
    for move_description in moves {
        game = apply_move_to_game_unchecked(&MoveDescription::from_long_algebraic(move_description, &game).unwrap(), &game)
            .unwrap();
    }
    let generated_moves = generate_all_moves(&game).unwrap();
    assert_eq!(generated_moves.len(), 3);
}

#[test]
fn three_checking_pieces_cannot_be_classified() {
    let game = GameState::from_fen("k7/8/1N6/8/8/8/8/R3K2B b - - 0 1").unwrap();
    assert!(matches!(inspect_check(&game, None).unwrap(), Some(TypesOfCheck::UnclassifiedCheck(_, _))));
    match inspect_check(&game, Some(piece_on(&game, "b6"))) {
        Err(ChessErrors::ErrorDuringCheckInspection(text)) => {
            assert_eq!(text, "More than two checking pieces found when classifying check type");
        },
        _ => panic!("expected a classification error"),
    }
}

#[test]
fn random_checked_move_is_one_of_the_moves() {
    let game = GameState::from_fen("8/2p5/3p4/KP5r/5R1k/8/4P1P1/8 b - - 1 1").unwrap();
    let moves = generate_all_moves(&game).unwrap();
    let picked = plum_chess::engine_random::choose_random_checked_move(&game).unwrap();
    assert!(moves.iter().any(|m| m.checked_move.description.get_long_algebraic() == picked.get_long_algebraic()));
    let stalemate = GameState::from_fen("7k/5Q2/6K1/8/8/8/8/8 b - - 0 1").unwrap();
    assert!(matches!(
        plum_chess::engine_random::choose_random_checked_move(&stalemate),
        Err(ChessErrors::NoLegalMoves)
    ));
}

#[test]
fn both_check_detectors_agree() {
    let texts = [
        "rnb1kbnr/ppp1pppp/8/8/4P3/8/PPP2PPP/RNBqKBNR w KQkq - 0 4",
        "rnbqkbnr/pppppppp/8/8/4P3/8/PPPP1PPP/RNBQKBNR b KQkq e3 0 1",
        "k7/8/1N6/8/8/8/8/R3K2B b - - 0 1",
        "4k3/8/8/8/8/8/4p3/4K3 w - - 0 1",
        "4k3/8/8/8/8/8/3p4/4K3 w - - 0 1",
        "4k3/8/8/8/1b6/8/8/4K3 w - - 0 1",
        "4k3/8/8/8/1b6/2P5/8/4K3 w - - 0 1",
    ];
    for text in texts {
        let game = GameState::from_fen(text).unwrap();
        let attacked = inspect_if_game_has_king_in_check(&game).unwrap();
        let inspected = inspect_check(&game, None).unwrap();
        assert_eq!(attacked, inspected.is_some(), "{}", text);
    }
}

#[test]
fn offered_moves_leave_the_king_safe() {
    let texts = [
        "rnb1kbnr/pppp1ppp/8/4p3/3PP2q/8/PPP2PPP/RNBQKBNR w KQkq - 1 3",
        "8/2p5/3p4/KP5r/1R3p1k/8/4P1P1/8 w - - 0 1",
        "r3k2r/8/8/8/8/8/8/R3K2R b KQkq - 0 1",
    ];
    for text in texts {
        let game = GameState::from_fen(text).unwrap();
        let mover = game.side_to_move;
        for m in generate_all_moves(&game).unwrap() {
            assert!(!is_king_in_check(&m.game_after_move, mover), "{}", text);
            assert_ne!(m.game_after_move.side_to_move, mover);
        }
    }
}
