use plum_chess::board_location::BoardLocation;
use plum_chess::collision_masks::CollisionMasks;
use plum_chess::game_state::GameState;
use plum_chess::generate_moves_level_4::{generate_moves_level_4, GenerateLevel4Result};
use plum_chess::move_description::MoveTypes;
use plum_chess::piece_record::view_piece_at_location;
use plum_chess::special_move_flags::SpecialMoveFlags;

fn moves_from(game: &GameState, square: &str) -> GenerateLevel4Result {
    let piece = view_piece_at_location(game, BoardLocation::from_long_algebraic(square).unwrap()).unwrap();
    generate_moves_level_4(&piece, &CollisionMasks::from(game), &SpecialMoveFlags::from(game), game).unwrap()
}

#[test]
fn test_bishop_moves_level_4() {
    let game = GameState::from_fen("rnbqk1nr/p1p2ppp/4p3/3p4/1b1PP3/PpPB1N2/1P3PPP/RNBQK2R w KQkq - 1 7").unwrap();
    assert_eq!(moves_from(&game, "d3").len(), 6);
    assert_eq!(moves_from(&game, "b4").len(), 7);
}

#[test]
fn test_knight_moves_level_4() {
    let game = GameState::from_fen("rnbqk1nr/p1p2ppp/4p3/3pN3/1b1PP3/PpPB4/1P3PPP/RNBQK2R b KQkq - 2 7").unwrap();
    assert_eq!(moves_from(&game, "e5").len(), 7);
    assert_eq!(moves_from(&game, "b8").len(), 3);
}

#[test]
fn test_rook_moves_level_4() {
    let game = GameState::from_fen("rnbqk2r/p4ppp/2p1pn2/3pN3/1P1PP3/1pPB4/1P3PPP/RNBQK2R w KQkq - 1 9").unwrap();
    assert_eq!(moves_from(&game, "a1").len(), 6);
    assert_eq!(moves_from(&game, "a8").len(), 0);
}

#[test]
fn test_queen_moves_level_4() {
    let game = GameState::from_fen("rnbqk2r/p4ppp/2p1pn2/3pN3/1P1PP3/1pPB4/1P3PPP/RNBQK2R w KQkq - 1 9").unwrap();
    assert_eq!(moves_from(&game, "d1").len(), 7);
    assert_eq!(moves_from(&game, "d8").len(), 6);
}

#[test]
fn test_king_moves_level_4() {
    let game = GameState::from_fen("rnbqk2r/p4ppp/2p1pn2/3pN3/1P1PP3/1pPB4/1P3PPP/RNBQK2R w KQkq - 1 9").unwrap();
    assert_eq!(moves_from(&game, "e1").len(), 4);
    assert_eq!(moves_from(&game, "e8").len(), 4);
}

#[test]
fn test_pawn_moves_level_4() {
    let game = GameState::from_fen("rnbqk2r/p4pp1/2p1pn2/3pN3/1P1PP1Pp/2PB4/pP3P1P/1NBQK2R b Kkq g3 0 12").unwrap();
    // Regular capture
    assert_eq!(moves_from(&game, "d5").len(), 1);
    // Double promotion
    assert_eq!(moves_from(&game, "a2").len(), 8);
    // En passant
    assert_eq!(moves_from(&game, "h4").len(), 2);
}

#[test]
fn level_4_pawn_promotions_and_en_passant() {
    let game = GameState::from_fen("rnbqk2r/p4pp1/2p1pn2/3pN3/1P1PP1Pp/2PB4/pP3P1P/1NBQK2R b Kkq g3 0 12").unwrap();
    let promotions = moves_from(&game, "a2");
    assert_eq!(promotions.len(), 8);
    assert!(promotions.iter().all(|m| matches!(m.move_type, MoveTypes::Promote(_))));
    let en_passant = moves_from(&game, "h4");
    assert_eq!(en_passant.len(), 2);
    assert!(matches!(en_passant[1].move_type, MoveTypes::EnPassant));
    assert_eq!(en_passant[1].capture_status.unwrap().location.to_long_algebraic(), "g4");
    let start = GameState::new_game();
    let pawn = moves_from(&start, "e2");
    assert_eq!(pawn.len(), 3);
    assert!(matches!(pawn[0].move_type, MoveTypes::DoubleStep(_)));
    assert_eq!(pawn[0].get_long_algebraic(), "e2e4");
}
