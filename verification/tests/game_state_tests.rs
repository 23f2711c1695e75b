use plum_chess::chess_errors::ChessErrors;
use plum_chess::game_state::GameState;

#[test]
fn test_fen_parsing() {
    let dut = GameState::new_game();
    let new_game_string = "rnbqkbnr/pppppppp/8/8/8/8/PPPPPPPP/RNBQKBNR w KQkq - 0 1".to_string();
    assert_eq!(dut.get_fen(), new_game_string);
    let score = dut.get_material_score();
    assert_eq!(score, 0);

    let game_string = "1r4k1/7p/3p1bp1/p1pP4/P1P1prP1/1N2R2P/1P1N1PK1/8 b - - 3 31".to_string();
    let dut = GameState::from_fen(&game_string).expect("Should parse this string");
    assert_eq!(dut.get_fen(), game_string);
    let score = dut.get_material_score();
    assert_eq!(score, -1);

    let game_string = "r1bq1rk1/ppp2ppp/2n5/2bp4/4n3/1P2PNP1/PBP2PBP/RN1Q1RK1 b - - 2 9".to_string();
    let dut = GameState::from_fen(&game_string).expect("Should parse this string");
    assert_eq!(dut.get_fen(), game_string);
    let score = dut.get_material_score();
    assert_eq!(score, 0);

    let game_string = "8/bpp1k2p/p2pP1p1/P5q1/1P5N/8/6PP/5Q1K b - - 0 35".to_string();
    let dut = GameState::from_fen(&game_string).expect("Should parse this string");
    assert_eq!(dut.get_fen(), game_string);
    let score = dut.get_material_score();
    assert_eq!(score, -1);
}

#[test]
fn fen_parse_errors_name_the_fault() {
    let short = "8/8/8/8/8/8/8/8 w";
    assert!(matches!(GameState::from_fen(short), Err(ChessErrors::InvalidFEDstringForm(s)) if s == short));
    assert!(matches!(GameState::from_fen("8/8/8/8/8/8/8/7x w - - 0 1"), Err(ChessErrors::InvalidFENtoken('x'))));
    assert!(matches!(GameState::from_fen("8/8/8/8/8/8/8/8 x - - 0 1"), Err(ChessErrors::InvalidFENtoken('x'))));
    assert!(matches!(GameState::from_fen("8/8/8/8/8/8/8/8 w Z - 0 1"), Err(ChessErrors::InvalidFENtoken('Z'))));
    assert!(matches!(GameState::from_fen("8/8/8/8/8/8/8/8 w - - a 1"), Err(ChessErrors::InvalidFEDstringForm(_))));
    assert!(matches!(GameState::from_fen("8/8/8/8/8/8/8/8 w - e9 0 1"), Err(ChessErrors::InvalidAlgebraicChar('9'))));
    assert!(matches!(GameState::from_fen("8/8/8/8/8/8/8/8 w - e33 0 1"), Err(ChessErrors::InvalidAlgebraicString(_))));
    let ninth = "8/8/8/8/8/8/8/8/8 w - - 0 1";
    assert!(matches!(GameState::from_fen(ninth), Err(ChessErrors::InvalidFEDstringForm(s)) if s == ninth));
    assert!(matches!(GameState::from_fen("8/8/8/8/8/8/8/7\u{e9} w - - 0 1"), Err(ChessErrors::InvalidFENtoken('\u{e9}'))));
    assert!(matches!(GameState::from_fen(""), Err(ChessErrors::InvalidFEDstringForm(s)) if s.is_empty()));
}

#[test]
fn fen_parse_rejects_malformed_text() {
    assert!(GameState::from_fen("").is_err());
    assert!(GameState::from_fen("8/8/8/8/8/8/8/8 w - -").is_err());
    assert!(GameState::from_fen("8/8/8/8/8/8/8/8 x - - 0 1").is_err());
    assert!(GameState::from_fen("8/8/8/8/8/8/8/7X w - - 0 1").is_err());
    assert!(GameState::from_fen("8/8/8/8/8/8/8/8/8 w - - 0 1").is_err());
    assert!(GameState::from_fen("8/8/8/8/8/8/8/8 w KZ - 0 1").is_err());
    assert!(GameState::from_fen("8/8/8/8/8/8/8/8 w - e9 0 1").is_err());
    assert!(GameState::from_fen("8/8/8/8/8/8/8/8 w - - 70000 1").is_err());
    assert!(GameState::from_fen("8/8/8/8/8/8/8/8 w - - 0 -1").is_err());
    let g = GameState::from_fen("  8/8/8/8/8/8/8/8   b   Kq  e3  +7  12 extra").expect("parse");
    assert_eq!(g.get_fen(), "8/8/8/8/8/8/8/8 b Kq e3 7 12");
    assert_eq!(g.en_passant_square, Some(20));
}

#[test]
fn new_game_keys_match_recompute_and_history() {
    let g = GameState::new_game();
    assert_eq!(g.zobrist_key, plum_chess::zobrist::compute_zobrist_key(&g));
    assert_eq!(g.pawn_zobrist_key, plum_chess::zobrist::compute_pawn_zobrist_key(&g));
    assert_eq!(g.repetition_history, vec![g.zobrist_key]);
    assert_eq!(g.occupancy_all, 0xffff_0000_0000_ffff);
    let empty = GameState::new_empty();
    assert_eq!(empty.get_fen(), "8/8/8/8/8/8/8/8 w - - 0 1");
}

#[test]
fn written_fen_reads_back_as_the_same_position() {
    let texts = [
        "rnbqkbnr/pppppppp/8/8/4P3/8/PPPP1PPP/RNBQKBNR b KQkq e3 0 1",
        "8/2p5/3p4/KP5r/1R3p1k/8/4P1P1/8 w - - 0 1",
        "r3k2r/8/8/8/8/8/8/R3K2R w Kq - 12 40",
        "4k3/8/8/8/8/8/8/4K3 b - - 99 65535",
    ];
    for text in texts {
        let game = GameState::from_fen(text).unwrap();
        let written = game.get_fen();
        assert_eq!(written, text);
        let again = GameState::from_fen(&written).unwrap();
        assert_eq!(again.pieces, game.pieces);
        assert_eq!(again.side_to_move, game.side_to_move);
        assert_eq!(again.castling_rights, game.castling_rights);
        assert_eq!(again.en_passant_square, game.en_passant_square);
        assert_eq!(again.halfmove_clock, game.halfmove_clock);
        assert_eq!(again.fullmove_number, game.fullmove_number);
        assert_eq!(again.zobrist_key, game.zobrist_key);
        assert_eq!(again.get_fen(), written);
    }
}

#[test]
fn fen_text_written_read_and_written_again_is_unchanged() {
    for fen in [
        "rnbqkbnr/pppppppp/8/8/8/8/PPPPPPPP/RNBQKBNR w KQkq - 0 1",
        "r3k2r/p1ppqpb1/bn2pnp1/3PN3/1p2P3/2N2Q1p/PPPBBPPP/R3K2R w KQkq - 0 1",
        "rnbqkbnr/ppp2ppp/4p3/3p4/3PP3/8/PPP2PPP/RNBQKBNR w KQkq d6 0 3",
    ] {
        let text = GameState::from_fen(fen).unwrap().get_fen();
        assert_eq!(GameState::from_fen(&text).unwrap().get_fen(), text);
        assert_eq!(text, fen);
    }
}
