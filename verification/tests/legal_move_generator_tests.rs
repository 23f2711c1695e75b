use plum_chess::game_state::GameState;
use plum_chess::legal_move_checks::{attackers_to_square, is_king_in_check, is_square_attacked};
use plum_chess::legal_move_generator::{
    generate_legal_move_descriptions_in_place, FastLegalMoveGenerator, LegalMoveGenerator,
};
use plum_chess::chess_types::{Color, PieceKind};
use plum_chess::move_generator::{MoveGenerationError, MoveGenerator, NullMoveGenerator};

#[test]
fn fast_generator_matches_legal_move_count_on_startpos() {
    let game = GameState::new_game();
    let annotated = LegalMoveGenerator
        .generate_legal_moves(&game)
        .expect("annotated move generation should succeed");
    let fast = FastLegalMoveGenerator
        .generate_legal_moves(&game)
        .expect("fast move generation should succeed");
    assert_eq!(annotated.len(), fast.len());
    assert_eq!(fast.len(), 20);
}

#[test]
fn legal_moves_never_leave_own_king_in_check() {
    let game = GameState::from_fen("4k3/8/8/8/8/8/4r3/4K3 w - - 0 1").expect("fen");
    let moves = FastLegalMoveGenerator.generate_legal_moves(&game).expect("moves");
    for m in &moves {
        assert!(!is_king_in_check(&m.game_after_move, Color::Light));
    }
    let mut probe = game.clone();
    let descriptions = generate_legal_move_descriptions_in_place(&mut probe).expect("moves");
    assert_eq!(descriptions.len(), moves.len());
    assert_eq!(probe.get_fen(), game.get_fen());
}

#[test]
fn checkmate_is_annotated() {
    let game = GameState::from_fen("7k/5Q2/6K1/8/8/8/8/8 w - - 0 1").expect("fen");
    let moves = LegalMoveGenerator.generate_legal_moves(&game).expect("moves");
    assert!(moves.iter().any(|m| m.annotations.is_checkmate && m.annotations.gives_check));
}

#[test]
fn attackers_are_listed_by_kind_then_square() {
    let game = GameState::from_fen("4k3/8/8/8/8/2n5/3P4/R3K2R b - - 0 1").expect("fen");
    assert!(is_square_attacked(&game, 3, Color::Dark));
    assert!(!is_square_attacked(&game, 4, Color::Dark));
    let attackers = attackers_to_square(&game, 3, Color::Light);
    assert_eq!(attackers, vec![(0, PieceKind::Rook), (4, PieceKind::King)]);
}

#[test]
fn null_generator_is_not_implemented() {
    let game = GameState::new_game();
    assert_eq!(
        NullMoveGenerator.generate_legal_moves(&game).err(),
        Some(MoveGenerationError::NotImplemented)
    );
}

#[test]
fn last_rank_pawn_is_rejected() {
    let game = GameState::from_fen("P3k3/8/8/8/8/8/8/4K3 w - - 0 1").expect("fen");
    assert!(FastLegalMoveGenerator.generate_legal_moves(&game).is_err());
}

#[test]
fn attack_test_agrees_with_attacker_list_on_every_square() {
    let fens = [
        "rnbqkbnr/pppppppp/8/8/8/8/PPPPPPPP/RNBQKBNR w KQkq - 0 1",
        "r3k2r/p1ppqpb1/bn2pnp1/3PN3/1p2P3/2N2Q1p/PPPBBPPP/R3K2R w KQkq - 0 1",
        "8/2p5/3p4/KP5r/1R3p1k/8/4P1P1/8 w - - 0 1",
    ];
    for fen in fens {
        let game = GameState::from_fen(fen).unwrap();
        for square in 0u8..64 {
            for color in [Color::Light, Color::Dark] {
                let attacked = is_square_attacked(&game, square, color);
                let attackers = attackers_to_square(&game, square, color);
                assert_eq!(attacked, !attackers.is_empty(), "{fen} square {square}");
            }
        }
    }
}
