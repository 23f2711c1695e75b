use plum_chess::available_movement_masks::{
    generate_available_movement_mask, generate_pawn_diagonal_captures_mask,
    generate_pawn_double_step_movement_mask, generate_pawn_single_step_movement_mask,
};
use plum_chess::board_location::BoardLocation;
use plum_chess::chess_types::PieceKind;
use plum_chess::collision_masks::CollisionMasks;
use plum_chess::game_state::GameState;
use plum_chess::generate_moves_level_1::{
    generate_bishop_moves_level_1, generate_king_moves_level_1, generate_knight_moves_level_1,
    generate_pawn_moves_level_1, generate_queen_moves_level_1, generate_rook_moves_level_1,
    GenerateLevel1Result,
};
use plum_chess::generate_moves_level_2::{generate_pawn_moves_level_2, GenerateLevel2Result};
use plum_chess::generate_moves_level_3::GenerateLevel3Result;
use plum_chess::piece_record::view_piece_at_location;
use plum_chess::piece_team::PieceTeam;

fn loc(name: &str) -> BoardLocation {
    BoardLocation::from_long_algebraic(name).unwrap()
}

#[test]
fn test_bishop_moves_level_1() {
    let game = GameState::from_fen("rnbqk1nr/p1p2ppp/4p3/3p4/1b1PP3/PpPB1N2/1P3PPP/RNBQK2R w KQkq - 1 7").unwrap();
    let raw_moves = generate_bishop_moves_level_1(loc("d3"), &CollisionMasks::from(&game)).unwrap();
    assert_eq!(raw_moves.dark_collisions.len(), 0);
    assert_eq!(raw_moves.light_collisions.len(), 2);
    assert_eq!(raw_moves.no_collisions.len(), 6);

    let raw_moves = generate_bishop_moves_level_1(loc("b4"), &CollisionMasks::from(&game)).unwrap();
    assert_eq!(raw_moves.dark_collisions.len(), 0);
    assert_eq!(raw_moves.light_collisions.len(), 2);
    assert_eq!(raw_moves.no_collisions.len(), 5);
}

#[test]
fn test_knight_moves_level_1() {
    let game = GameState::from_fen("rnbqk1nr/p1p2ppp/4p3/3pN3/1b1PP3/PpPB4/1P3PPP/RNBQK2R b KQkq - 2 7").unwrap();
    let raw_moves = generate_knight_moves_level_1(loc("e5"), &CollisionMasks::from(&game)).unwrap();
    assert_eq!(raw_moves.dark_collisions.len(), 1);
    assert_eq!(raw_moves.light_collisions.len(), 1);
    assert_eq!(raw_moves.no_collisions.len(), 6);

    let raw_moves = generate_knight_moves_level_1(loc("b8"), &CollisionMasks::from(&game)).unwrap();
    assert_eq!(raw_moves.dark_collisions.len(), 0);
    assert_eq!(raw_moves.light_collisions.len(), 0);
    assert_eq!(raw_moves.no_collisions.len(), 3);
}

#[test]
fn test_rook_moves_level_1() {
    let game = GameState::from_fen("rnbqk2r/p4ppp/2p1pn2/3pN3/1P1PP3/1pPB4/1P3PPP/RNBQK2R w KQkq - 1 9").unwrap();
    let raw_moves = generate_rook_moves_level_1(loc("a1"), &CollisionMasks::from(&game)).unwrap();
    assert_eq!(raw_moves.dark_collisions.len(), 1);
    assert_eq!(raw_moves.light_collisions.len(), 1);
    assert_eq!(raw_moves.no_collisions.len(), 5);

    let raw_moves = generate_rook_moves_level_1(loc("a8"), &CollisionMasks::from(&game)).unwrap();
    assert_eq!(raw_moves.dark_collisions.len(), 2);
    assert_eq!(raw_moves.light_collisions.len(), 0);
    assert_eq!(raw_moves.no_collisions.len(), 0);
}

#[test]
fn test_queen_moves_level_1() {
    let game = GameState::from_fen("rnbqk2r/p4ppp/2p1pn2/3pN3/1P1PP3/1pPB4/1P3PPP/RNBQK2R w KQkq - 1 9").unwrap();
    let raw_moves = generate_queen_moves_level_1(loc("d1"), &CollisionMasks::from(&game)).unwrap();
    assert_eq!(raw_moves.dark_collisions.len(), 1);
    assert_eq!(raw_moves.light_collisions.len(), 3);
    assert_eq!(raw_moves.no_collisions.len(), 6);

    let raw_moves = generate_queen_moves_level_1(loc("d8"), &CollisionMasks::from(&game)).unwrap();
    assert_eq!(raw_moves.dark_collisions.len(), 4);
    assert_eq!(raw_moves.light_collisions.len(), 0);
    assert_eq!(raw_moves.no_collisions.len(), 6);
}

#[test]
fn test_king_moves_level_1() {
    let game = GameState::from_fen("rnbqk2r/p4ppp/2p1pn2/3pN3/1P1PP3/1pPB4/1P3PPP/RNBQK2R w KQkq - 1 9").unwrap();
    let raw_moves = generate_king_moves_level_1(loc("e1"), &CollisionMasks::from(&game)).unwrap();
    assert_eq!(raw_moves.dark_collisions.len(), 0);
    assert_eq!(raw_moves.light_collisions.len(), 2);
    assert_eq!(raw_moves.no_collisions.len(), 3);
}

#[test]
fn pawn_level_2_keeps_free_pushes_and_opponent_captures() {
    let game = GameState::from_fen("rnbqkbnr/ppp2ppp/4p3/3p4/3PP3/8/PPP2PPP/RNBQKBNR w KQkq d6 0 3").unwrap();
    let raw_moves = generate_pawn_moves_level_2(loc("e4"), &CollisionMasks::from(&game), PieceTeam::Light).unwrap();
    assert_eq!(raw_moves.len(), 2);
    assert_eq!(raw_moves.captures.len(), 1);
    // d4 blocks the pawn on d5; only the capture on e4 remains.
    let raw_moves = generate_pawn_moves_level_2(loc("d5"), &CollisionMasks::from(&game), PieceTeam::Dark).unwrap();
    assert_eq!(raw_moves.len(), 1);
    assert_eq!(raw_moves.captures.len(), 1);
    assert_eq!(raw_moves.captures[0].binary_location, loc("e4").binary_location);

    let game = GameState::from_fen("rnbqkbnr/p1p2ppp/4p3/3p4/3PP3/Pp1B1N2/1PP2PPP/RNBQK2R w KQkq - 0 6").unwrap();
    let raw_moves = generate_pawn_moves_level_2(loc("c2"), &CollisionMasks::from(&game), PieceTeam::Light).unwrap();
    assert_eq!(raw_moves.captures.len(), 1);
    assert_eq!(raw_moves.no_collisions.len(), 2);
}

#[test]
fn test_generate_pawn_double_step_movement_mask() {
    let game = GameState::new_game();
    let mask = generate_pawn_double_step_movement_mask(&view_piece_at_location(&game, loc("e2")).unwrap(), &game).unwrap();
    let mut expected = loc("e2").binary_location;
    expected |= loc("e3").binary_location;
    expected |= loc("e4").binary_location;
    assert_eq!(mask, expected);

    let mask = generate_pawn_double_step_movement_mask(&view_piece_at_location(&game, loc("e7")).unwrap(), &game).unwrap();
    let mut expected = loc("e7").binary_location;
    expected |= loc("e6").binary_location;
    expected |= loc("e5").binary_location;
    assert_eq!(mask, expected);

    let game = GameState::from_fen("rnbqkbnr/pppp1ppp/4p3/8/4P3/8/PPPP1PPP/RNBQKBNR w KQkq - 0 2").unwrap();
    let mask = generate_pawn_double_step_movement_mask(&view_piece_at_location(&game, loc("e4")).unwrap(), &game).unwrap();
    let expected = 0;
    assert_eq!(mask, expected);
}

#[test]
fn test_generate_pawn_single_step_movement_mask() {
    let game = GameState::new_game();
    let mask = generate_pawn_single_step_movement_mask(&view_piece_at_location(&game, loc("e2")).unwrap(), &game).unwrap();
    let mut expected = loc("e2").binary_location;
    expected |= loc("e3").binary_location;
    assert_eq!(mask, expected);

    let mask = generate_pawn_single_step_movement_mask(&view_piece_at_location(&game, loc("e7")).unwrap(), &game).unwrap();
    let mut expected = loc("e7").binary_location;
    expected |= loc("e6").binary_location;
    assert_eq!(mask, expected);

    let game = GameState::from_fen("rnbqkbnr/pppp1ppp/4p3/8/4P3/8/PPPP1PPP/RNBQKBNR w KQkq - 0 2").unwrap();
    let mask = generate_pawn_single_step_movement_mask(&view_piece_at_location(&game, loc("e4")).unwrap(), &game).unwrap();
    let mut expected = loc("e4").binary_location;
    expected |= loc("e5").binary_location;
    assert_eq!(mask, expected);
}

#[test]
fn test_generate_pawn_capture_movement_mask() {
    let game = GameState::from_fen("rnbqkbnr/ppp2ppp/4p3/3p4/3PP3/8/PPP2PPP/RNBQKBNR w KQkq d6 0 3").unwrap();
    let mask = generate_pawn_diagonal_captures_mask(&view_piece_at_location(&game, loc("e4")).unwrap(), &game).unwrap();
    let mut expected = loc("e4").binary_location;
    expected |= loc("d5").binary_location;
    assert_eq!(mask, expected);

    let mask = generate_pawn_diagonal_captures_mask(&view_piece_at_location(&game, loc("d5")).unwrap(), &game).unwrap();
    let mut expected = loc("d5").binary_location;
    expected |= loc("e4").binary_location;
    assert_eq!(mask, expected);
}

#[test]
fn collision_masks_are_file_major_occupancy() {
    let game = GameState::new_game();
    let masks = CollisionMasks::from(&game);
    // Light holds ranks 1 and 2 of every file; Dark ranks 7 and 8.
    assert_eq!(masks.light_mask, 0x0303_0303_0303_0303);
    assert_eq!(masks.dark_mask, 0xC0C0_C0C0_C0C0_C0C0);
}

#[test]
fn test_pawn_moves_level_1() {
    let game = GameState::from_fen("rnbqkbnr/ppp2ppp/4p3/3p4/3PP3/8/PPP2PPP/RNBQKBNR w KQkq d6 0 3").unwrap();
    let raw_moves = generate_pawn_moves_level_1(loc("e4"), &CollisionMasks::from(&game), PieceTeam::Light).unwrap();
    assert_eq!(raw_moves.len(), 2);

    let raw_moves = generate_pawn_moves_level_1(loc("d5"), &CollisionMasks::from(&game), PieceTeam::Dark).unwrap();
    assert_eq!(raw_moves.len(), 1);

    let game = GameState::from_fen("rnbqkbnr/p1p2ppp/4p3/3p4/3PP3/Pp1B1N2/1PP2PPP/RNBQK2R w KQkq - 0 6").unwrap();
    let raw_moves = generate_pawn_moves_level_1(loc("c2"), &CollisionMasks::from(&game), PieceTeam::Light).unwrap();
    assert_eq!(raw_moves.dark_collisions.len(), 1);
    assert_eq!(raw_moves.light_collisions.len(), 1);
    assert_eq!(raw_moves.no_collisions.len(), 2);
}

#[test]
fn pawn_level_1_keeps_occupied_diagonals_of_either_side() {
    let game = GameState::from_fen("rnbqkbnr/ppp2ppp/4p3/3p4/3PP3/8/PPP2PPP/RNBQKBNR w KQkq d6 0 3").unwrap();
    let masks = CollisionMasks::from(&game);
    let raw_moves = generate_pawn_moves_level_1(loc("e4"), &masks, PieceTeam::Light).unwrap();
    assert_eq!(raw_moves.len(), 2);
    assert_eq!(raw_moves.no_collisions.len(), 1);
    assert_eq!(raw_moves.dark_collisions.len(), 1);
    let from_start = generate_pawn_moves_level_1(loc("a2"), &masks, PieceTeam::Light).unwrap();
    assert_eq!(from_start.no_collisions.len(), 2);
    assert_eq!(from_start.len(), 2);

    let game = GameState::from_fen("rnbqkbnr/p1p2ppp/4p3/3p4/3PP3/Pp1B1N2/1PP2PPP/RNBQK2R w KQkq - 0 6").unwrap();
    let masks = CollisionMasks::from(&game);
    let raw_moves = generate_pawn_moves_level_1(loc("c2"), &masks, PieceTeam::Light).unwrap();
    assert_eq!(raw_moves.dark_collisions.len(), 1);
    assert_eq!(raw_moves.light_collisions.len(), 1);
    assert_eq!(raw_moves.no_collisions.len(), 2);
}

#[test]
fn level_3_dispatches_on_piece_kind() {
    let game = GameState::new_game();
    let masks = CollisionMasks::from(&game);
    let knight = view_piece_at_location(&game, loc("g1")).unwrap();
    assert_eq!(knight.class, PieceKind::Knight);
    let moves = GenerateLevel3Result::from(&knight, &masks).unwrap();
    assert_eq!(moves.no_collisions.len(), 2);
    assert_eq!(moves.captures.len(), 0);
    let rook = view_piece_at_location(&game, loc("a8")).unwrap();
    assert_eq!(rook.team, PieceTeam::Dark);
    assert_eq!(GenerateLevel3Result::from(&rook, &masks).unwrap().len(), 0);
    assert!(view_piece_at_location(&game, loc("e4")).is_err());
    assert_eq!(generate_available_movement_mask(&knight, &game).unwrap(), 0);
    let empty = GenerateLevel2Result::new();
    assert_eq!(empty.len(), 0);
    assert_eq!(GenerateLevel1Result::new().len(), 0);
}
