use plum_chess::game_state::GameState;
use plum_chess::chess_types::PieceKind;
use plum_chess::move_descriptions::pack_move_description;
use plum_chess::legal_move_apply::{apply_move, make_move_in_place, unmake_move_in_place};
use plum_chess::long_algebraic::{long_algebraic_to_move_description, move_description_to_long_algebraic};
use plum_chess::zobrist::{compute_pawn_zobrist_key, compute_zobrist_key};

#[test]
fn make_unmake_round_trip_restores_fen_and_hash() {
    let initial = GameState::new_game();
    let mut state = initial.clone();
    let mv = long_algebraic_to_move_description("e2e4", &state).expect("move parse");
    make_move_in_place(&mut state, mv).expect("make move");
    assert_ne!(state.get_fen(), initial.get_fen());
    unmake_move_in_place(&mut state).expect("unmake move");
    assert_eq!(state.get_fen(), initial.get_fen());
    assert_eq!(state.zobrist_key, initial.zobrist_key);
    assert_eq!(state.pawn_zobrist_key, initial.pawn_zobrist_key);
}

#[test]
fn make_move_incremental_hash_matches_recompute() {
    let mut state = GameState::new_game();
    let mv = long_algebraic_to_move_description("e2e4", &state).expect("move parse");
    make_move_in_place(&mut state, mv).expect("make move");
    assert_eq!(state.zobrist_key, compute_zobrist_key(&state));
    assert_eq!(state.pawn_zobrist_key, compute_pawn_zobrist_key(&state));
}

#[test]
fn castling_and_en_passant_apply_and_print() {
    let g = GameState::from_fen("r3k2r/8/8/3pP3/8/8/8/R3K2R w KQkq d6 0 1").expect("fen");
    let castle = long_algebraic_to_move_description("e1g1", &g).expect("castle");
    let after = apply_move(&g, castle).expect("apply");
    assert_eq!(after.get_fen(), "r3k2r/8/8/3pP3/8/8/8/R4RK1 b kq - 1 1");
    assert_eq!(after.zobrist_key, compute_zobrist_key(&after));
    let ep = long_algebraic_to_move_description("e5d6", &g).expect("en passant");
    let after = apply_move(&g, ep).expect("apply");
    assert_eq!(after.get_fen(), "r3k2r/8/3P4/8/8/8/8/R3K2R b KQkq - 0 1");
    assert_eq!(move_description_to_long_algebraic(ep), "e5d6");
    assert!(long_algebraic_to_move_description("e1e3", &g).is_err());
    assert!(long_algebraic_to_move_description("e1", &g).is_err());
}

#[test]
fn promotion_text_round_trips() {
    let g = GameState::from_fen("8/4P3/8/8/8/8/8/k6K w - - 0 1").expect("fen");
    for text in ["e7e8q", "e7e8r", "e7e8b", "e7e8n"] {
        let mv = long_algebraic_to_move_description(text, &g).expect("promotion");
        assert_eq!(move_description_to_long_algebraic(mv), text);
    }
    assert!(long_algebraic_to_move_description("e7e8", &g).is_err());
}

#[test]
fn move_from_empty_square_names_the_square() {
    let start = GameState::new_game();
    let mv = pack_move_description(28, 36, PieceKind::Pawn, None, None, 0);
    let mut game = start.clone();
    let made = make_move_in_place(&mut game, mv);
    assert_eq!(made, Err("No piece on from-square 28".to_string()));
    assert_eq!(game.get_fen(), start.get_fen());
    assert_eq!(game.undo_stack.len(), start.undo_stack.len());
    assert_eq!(apply_move(&start, mv).err(), Some("No piece on from-square 28".to_string()));
}

#[test]
fn every_legal_move_makes_and_unmakes_exactly() {
    let fens = [
        "r3k2r/p1ppqpb1/bn2pnp1/3PN3/1p2P3/2N2Q1p/PPPBBPPP/R3K2R w KQkq - 0 1",
        "rnbq1k1r/pp1Pbppp/2p5/8/2B5/8/PPP1NnPP/RNBQK2R w KQ - 1 8",
    ];
    for fen in fens {
        let start = GameState::from_fen(fen).unwrap();
        let mut probe = start.clone();
        let moves = plum_chess::legal_move_generator::generate_legal_move_descriptions_in_place(&mut probe).unwrap();
        assert!(!moves.is_empty());
        for mv in moves {
            let mut game = start.clone();
            make_move_in_place(&mut game, mv).unwrap();
            unmake_move_in_place(&mut game).unwrap();
            assert_eq!(game.get_fen(), start.get_fen());
            assert_eq!(game.zobrist_key, start.zobrist_key);
            assert_eq!(game.pawn_zobrist_key, start.pawn_zobrist_key);
            assert_eq!(game.undo_stack.len(), start.undo_stack.len());
            assert_eq!(game.repetition_history, start.repetition_history);
        }
    }
}
