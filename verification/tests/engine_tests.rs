use plum_chess::engine_greedy::GreedyEngine;
use plum_chess::engine_humanized_v5::default_depth_for_level;
use plum_chess::engine_iterative_v10::prefer_queen_promotion;
use plum_chess::engine_iterative_v16::find_mate_in_one;
use plum_chess::engine_iterative_v17::{
    is_conservative_endgame, kpk_pawn_color, material_score_for_color, select_kpk_best_move,
    select_non_repetition_best_material_move,
    solve_kpk_outcome, would_be_threefold_after_move, KpkOutcome,
};
use plum_chess::engine_random::RandomEngine;
use plum_chess::engine_trait::{Engine, GoParams};
use plum_chess::chess_types::Color;
use plum_chess::fen_parser::parse_fen;
use plum_chess::game_state::GameState;
use plum_chess::legal_move_apply::apply_move;
use plum_chess::legal_move_generator::generate_legal_move_descriptions_in_place;
use plum_chess::long_algebraic::long_algebraic_to_move_description;
use plum_chess::time_management::{resolve_go_params, TimeManagementStrategy};

#[test]
fn v5_default_depth_scales_across_level_bands() {
    assert_eq!(default_depth_for_level(3), 2);
    assert_eq!(default_depth_for_level(7), 3);
    assert_eq!(default_depth_for_level(10), 4);
    assert_eq!(default_depth_for_level(13), 5);
    assert_eq!(default_depth_for_level(16), 6);
}

#[test]
fn threefold_detection_helper_detects_repetition() {
    let mut game = GameState::new_game();
    let mut probe = game.clone();
    let legal = generate_legal_move_descriptions_in_place(&mut probe).expect("legal");
    let mv = legal[0];
    let next = apply_move(&game, mv).expect("apply");
    game.repetition_history = vec![next.zobrist_key, next.zobrist_key];
    assert!(would_be_threefold_after_move(&game, mv));
}

#[test]
fn conservative_endgame_trigger_detects_low_material() {
    let start = GameState::new_game();
    assert!(!is_conservative_endgame(&start));
    let low = parse_fen("8/8/8/8/8/8/5k2/6KR w - - 0 1").expect("fen should parse");
    assert!(is_conservative_endgame(&low));
}

#[test]
fn kpk_exact_detects_simple_win() {
    let game = parse_fen("k7/7P/8/8/8/8/8/K7 w - - 0 1").expect("fen should parse");
    assert!(kpk_pawn_color(&game).is_some());
    let mut memo = std::collections::HashMap::new();
    let mut visiting = std::collections::HashSet::new();
    let outcome = solve_kpk_outcome(&game, &mut memo, &mut visiting, 0);
    assert_eq!(outcome, KpkOutcome::Win);
}

#[test]
fn kpk_exact_detects_simple_draw() {
    let game = parse_fen("8/8/8/8/4k3/8/4P3/4K3 w - - 0 1").expect("fen should parse");
    assert!(kpk_pawn_color(&game).is_some());
    let mut memo = std::collections::HashMap::new();
    let mut visiting = std::collections::HashSet::new();
    let outcome = solve_kpk_outcome(&game, &mut memo, &mut visiting, 0);
    assert_eq!(outcome, KpkOutcome::Draw);
}

#[test]
fn kpk_best_move_promotes_when_winning() {
    let game = parse_fen("k7/7P/8/8/8/8/8/K7 w - - 0 1").expect("fen");
    let best = select_kpk_best_move(&game).expect("a move");
    let knight = long_algebraic_to_move_description("h7h8n", &game).expect("promotion");
    assert_eq!(best, knight);
    assert!(select_kpk_best_move(&GameState::new_game()).is_none());
}

#[test]
fn material_score_counts_centipawns() {
    let game = parse_fen("4k3/8/8/8/8/8/PPPP4/RN2K3 w - - 0 1").expect("fen");
    assert_eq!(material_score_for_color(&game, Color::Light), 400 + 500 + 350);
    assert_eq!(material_score_for_color(&game, Color::Dark), -(400 + 500 + 350));
}

#[test]
fn mate_in_one_is_found() {
    let game = parse_fen("7k/5Q2/6K1/8/8/8/8/8 w - - 0 1").expect("fen");
    let mut probe = game.clone();
    let legal = generate_legal_move_descriptions_in_place(&mut probe).expect("legal");
    let mate = find_mate_in_one(&game, &legal).expect("mate");
    let after = apply_move(&game, mate).expect("apply");
    let mut probe = after.clone();
    assert!(generate_legal_move_descriptions_in_place(&mut probe).expect("replies").is_empty());
}

#[test]
fn queen_promotion_is_preferred() {
    let game = parse_fen("8/4P3/8/8/8/8/8/k6K w - - 0 1").expect("fen");
    let knight = long_algebraic_to_move_description("e7e8n", &game).expect("n");
    let queen = long_algebraic_to_move_description("e7e8q", &game).expect("q");
    let mut probe = game.clone();
    let legal = generate_legal_move_descriptions_in_place(&mut probe).expect("legal");
    assert_eq!(prefer_queen_promotion(knight, &legal), queen);
    assert_eq!(prefer_queen_promotion(queen, &legal), queen);
}

#[test]
fn random_and_greedy_engines_pick_legal_moves() {
    let game = parse_fen("4k3/8/8/3q4/4P3/8/8/4K3 w - - 0 1").expect("fen");
    let mut probe = game.clone();
    let legal = generate_legal_move_descriptions_in_place(&mut probe).expect("legal");
    let params = GoParams { depth: Some(1), ..GoParams::default() };
    let mut random = RandomEngine::new();
    let out = random.choose_move(&game, &params).expect("random");
    assert!(legal.contains(&out.best_move.expect("a move")));
    assert_eq!(out.info_lines.len(), 2);
    let mut greedy = GreedyEngine::new();
    let out = greedy.choose_move(&game, &params).expect("greedy");
    let capture = long_algebraic_to_move_description("e4d5", &game).expect("capture");
    assert_eq!(out.best_move, Some(capture));
    assert_eq!(out.info_lines[0], format!("info string greedy_engine legal_moves {}", legal.len()));
}

#[test]
fn time_budget_follows_strategy() {
    let game = GameState::new_game();
    let params = GoParams { wtime_ms: Some(60_000), btime_ms: Some(1_000), ..GoParams::default() };
    let r = resolve_go_params(&game, &params, TimeManagementStrategy::Fraction20);
    assert_eq!(r.movetime_ms, Some(3_000));
    let r = resolve_go_params(&game, &params, TimeManagementStrategy::AdaptiveV13);
    assert_eq!(r.movetime_ms, Some(1_440));
    let fixed = GoParams { movetime_ms: Some(77), ..GoParams::default() };
    assert_eq!(resolve_go_params(&game, &fixed, TimeManagementStrategy::AdaptiveV13).movetime_ms, Some(77));
}

#[test]
fn replacement_move_prefers_material() {
    let game = parse_fen("4k3/8/8/3q4/4P3/8/8/4K3 w - - 0 1").expect("fen");
    let mut probe = game.clone();
    let legal = generate_legal_move_descriptions_in_place(&mut probe).expect("legal");
    let king_step = long_algebraic_to_move_description("e1e2", &game).expect("e1e2");
    let capture = long_algebraic_to_move_description("e4d5", &game).expect("e4d5");
    assert_eq!(select_non_repetition_best_material_move(&game, &legal, king_step), Some(capture));
    let other = select_non_repetition_best_material_move(&game, &legal, capture).expect("a move");
    assert_ne!(other, capture);
    assert!(legal.contains(&other));
}
