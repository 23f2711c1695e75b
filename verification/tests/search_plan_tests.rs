use plum_chess::engine_iterative_v16::{go_control_mode, plan_info_lines, select_root_move, GoControlMode, IterativeEngine, RankedCandidate};
use plum_chess::legal_move_apply::apply_move;
use plum_chess::engine_iterative_v17::extract_last_cp_score;
use plum_chess::engine_trait::GoParams;
use plum_chess::fen_parser::parse_fen;
use plum_chess::game_state::GameState;
use plum_chess::legal_move_generator::generate_legal_move_descriptions_in_place;
use plum_chess::long_algebraic::long_algebraic_to_move_description;

#[test]
fn movetime_overrides_nodes_and_mate_in_the_plan() {
    let game = GameState::new_game();
    let mut engine = IterativeEngine::new(3);
    engine.set_option("OwnBook", "false").expect("setoption should work");
    let params = GoParams { movetime_ms: Some(20), nodes: Some(10), mate: Some(2), ..GoParams::default() };
    let plan = engine.plan_search(&game, &params);
    assert_eq!(plan.control_mode, GoControlMode::MoveTime);
    assert_eq!(plan.node_cap, None);
    assert_eq!(plan.mate_mode, None);
    assert_eq!(plan.movetime_ms, Some(20));
    assert_eq!(plan.depth, 3);
}

#[test]
fn nodes_override_mate_in_the_plan() {
    let game = GameState::new_game();
    let engine = IterativeEngine::new(4);
    let params = GoParams { nodes: Some(200), mate: Some(3), wtime_ms: Some(60_000), ..GoParams::default() };
    let plan = engine.plan_search(&game, &params);
    assert_eq!(plan.control_mode, GoControlMode::Nodes);
    assert_eq!(plan.node_cap, Some(200));
    assert_eq!(plan.mate_mode, None);
    assert_eq!(plan.movetime_ms, None);
    assert_eq!(plan.depth, 4);
}

#[test]
fn mate_mode_deepens_the_search() {
    let game = GameState::new_game();
    let engine = IterativeEngine::new(2);
    let params = GoParams { mate: Some(3), ..GoParams::default() };
    let plan = engine.plan_search(&game, &params);
    assert_eq!(plan.control_mode, GoControlMode::Mate);
    assert_eq!(plan.mate_mode, Some(3));
    assert_eq!(plan.depth, 7);
    let huge = GoParams { mate: Some(200), ..GoParams::default() };
    assert_eq!(engine.plan_search(&game, &huge).depth, 255);
}

#[test]
fn clocks_and_depth_plan() {
    let game = GameState::new_game();
    let engine = IterativeEngine::new(5);
    let params = GoParams { depth: Some(2), ..GoParams::default() };
    assert_eq!(go_control_mode(&params), GoControlMode::ClocksOrDepth);
    let plan = engine.plan_search(&game, &params);
    assert_eq!(plan.depth, 2);
    assert_eq!(plan.movetime_ms, None);
    let clocks = GoParams { wtime_ms: Some(60_000), btime_ms: Some(1_000), ..GoParams::default() };
    let plan = engine.plan_search(&game, &clocks);
    assert_eq!(plan.control_mode, GoControlMode::ClocksOrDepth);
    assert_eq!(plan.movetime_ms, Some(1_440));
    assert_eq!(plan.depth, 5);
}

#[test]
fn root_move_prefers_an_immediate_mate() {
    let game = parse_fen("6k1/5ppp/8/8/8/8/5PPP/R5K1 w - - 0 1").expect("fen");
    let mut probe = game.clone();
    let legal = generate_legal_move_descriptions_in_place(&mut probe).expect("legal");
    let quiet = long_algebraic_to_move_description("g1h1", &game).expect("g1h1");
    let mate = long_algebraic_to_move_description("a1a8", &game).expect("a1a8");
    let choice = select_root_move(&game, &legal, &None, Some(quiet));
    assert_eq!(choice.root_legal, legal);
    assert_eq!(choice.best_move, Some(mate));
    assert!(choice.immediate_mate);
    assert!(!choice.queen_promotion_preferred);

    let restricted = Some(vec![quiet]);
    let choice = select_root_move(&game, &legal, &restricted, Some(mate));
    assert_eq!(choice.root_legal, vec![quiet]);
    assert_eq!(choice.best_move, Some(quiet));
    assert!(!choice.immediate_mate);

    let none_allowed = Some(vec![0u64]);
    let choice = select_root_move(&game, &legal, &none_allowed, None);
    assert!(choice.root_legal.is_empty());
    assert_eq!(choice.best_move, None);
}

#[test]
fn root_move_prefers_a_queen_promotion() {
    let game = parse_fen("8/4P3/8/8/8/8/8/k6K w - - 0 1").expect("fen");
    let mut probe = game.clone();
    let legal = generate_legal_move_descriptions_in_place(&mut probe).expect("legal");
    let knight = long_algebraic_to_move_description("e7e8n", &game).expect("n");
    let queen = long_algebraic_to_move_description("e7e8q", &game).expect("q");
    let choice = select_root_move(&game, &legal, &None, Some(knight));
    assert_eq!(choice.best_move, Some(queen));
    assert!(choice.queen_promotion_preferred);
    let choice = select_root_move(&game, &legal, &None, Some(0));
    assert_eq!(choice.best_move, Some(queen));
}

#[test]
fn last_reported_score_is_extracted() {
    let lines = vec![
        "info depth 1 score cp 12 pv e2e4".to_string(),
        "info depth 2 score cp -30 nodes 40".to_string(),
        "info string done".to_string(),
    ];
    assert_eq!(extract_last_cp_score(&lines), Some(-30));
    let lines = vec!["info depth 1 score cp 7".to_string(), "info depth 2 score cp x".to_string()];
    assert_eq!(extract_last_cp_score(&lines), Some(7));
    let lines = vec!["info depth 3 score mate 2".to_string()];
    assert_eq!(extract_last_cp_score(&lines), None);
    assert_eq!(extract_last_cp_score(&[]), None);
}

#[test]
fn principal_variation_and_refutation_lines() {
    let game = GameState::new_game();
    let e4 = long_algebraic_to_move_description("e2e4", &game).unwrap();
    let d4 = long_algebraic_to_move_description("d2d4", &game).unwrap();
    let nf3 = long_algebraic_to_move_description("g1f3", &game).unwrap();
    let after_e4 = apply_move(&game, e4).unwrap();
    let e5 = long_algebraic_to_move_description("e7e5", &after_e4).unwrap();
    let after_e5 = apply_move(&after_e4, e5).unwrap();
    let reply_nf3 = long_algebraic_to_move_description("g1f3", &after_e5).unwrap();
    let ranked = vec![
        RankedCandidate { mv: e4, cp: 35, continuation: vec![e5, reply_nf3] },
        RankedCandidate { mv: d4, cp: -12, continuation: vec![] },
        RankedCandidate { mv: nf3, cp: 5, continuation: vec![] },
    ];
    let mut engine = IterativeEngine::new(3);
    engine.set_option("MultiPV", "2").expect("multipv");
    let lines = engine.build_multipv_lines(&game, &ranked, 3);
    assert_eq!(
        lines,
        vec![
            "info depth 3 multipv 1 score cp 35 pv e2e4 e7e5 g1f3".to_string(),
            "info depth 3 multipv 2 score cp -12 pv d2d4".to_string(),
        ]
    );
    let refutations = engine.build_refutation_lines(&game, &ranked);
    assert_eq!(
        refutations,
        vec!["info refutation d2d4 e2e4".to_string(), "info refutation g1f3 e2e4".to_string()]
    );
    assert!(engine.build_refutation_lines(&game, &ranked[..1]).is_empty());
}

#[test]
fn plan_report_lines_name_mode_budget_and_precedence() {
    let game = GameState::new_game();
    let engine = IterativeEngine::new(4);
    let params = GoParams { nodes: Some(200), mate: Some(3), ponder: true, ..GoParams::default() };
    let plan = engine.plan_search(&game, &params);
    let lines = plan_info_lines(&params, &plan);
    let pre = "info string iterative_engine_v16 ";
    let expected = vec![
        format!("{pre}used_depth 4"),
        format!("{pre}control_mode Nodes"),
        format!("{pre}go_raw movetime=None wtime=None btime=None winc=None binc=None"),
        format!("{pre}go_modes nodes=Some(200) mate=Some(3) ponder=true infinite=false"),
        format!("{pre}node_cap 200"),
        format!("{pre}note ponder mode parsed; search remains synchronous"),
        format!("{pre}go_resolved movetime=None"),
        format!("{pre}movetime_source node_mode_unbounded"),
        format!("{pre}precedence nodes overrides mate"),
    ];
    assert_eq!(lines, expected);

    let params = GoParams { mate: Some(2), ..GoParams::default() };
    let plan = engine.plan_search(&game, &params);
    let lines = plan_info_lines(&params, &plan);
    assert_eq!(lines[1], format!("{pre}control_mode Mate"));
    assert_eq!(lines[2], format!("{pre}mate_mode plies_target 5"));
}
