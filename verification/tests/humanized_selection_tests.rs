use plum_chess::engine_humanized_v5::{
    choose_humanized_move, parse_multipv_candidates, scored_candidates, select_with_pick,
    ScoredMove,
};
use plum_chess::game_state::GameState;
use plum_chess::long_algebraic::long_algebraic_to_move_description;

#[test]
fn parse_multipv_candidates_extracts_scored_moves() {
    let game = GameState::new_game();
    let lines = vec![
        "info depth 3 multipv 1 score cp 52 pv e2e4 e7e5".to_owned(),
        "info depth 3 multipv 2 score cp 48 pv d2d4 d7d5".to_owned(),
        "info depth 3 multipv 3 score cp 39 pv g1f3 g8f6".to_owned(),
    ];
    let parsed = parse_multipv_candidates(&lines, &game);
    assert_eq!(parsed.len(), 3);
    assert!(parsed[0].cp >= parsed[1].cp);
}

#[test]
fn choose_humanized_move_returns_none_when_fewer_than_three() {
    let candidates = vec![ScoredMove { mv: 1, cp: 10 }, ScoredMove { mv: 2, cp: 8 }];
    assert!(choose_humanized_move(&candidates, 10).is_none());
}

#[test]
fn choose_humanized_move_prefers_within_allowed_loss() {
    let candidates = vec![
        ScoredMove { mv: 10, cp: 100 },
        ScoredMove { mv: 20, cp: 95 },
        ScoredMove { mv: 30, cp: 80 },
    ];
    // The strongest level allows no loss at all.
    let chosen = choose_humanized_move(&candidates, 0).expect("should choose");
    assert_eq!(chosen.0, 10);
    assert_eq!(chosen.2, 0);
}

#[test]
fn multipv_lines_are_sorted_deduplicated_and_filtered() {
    let game = GameState::new_game();
    let lines = vec![
        "info depth 3 multipv 1 score cp 10 pv g1f3 g8f6".to_owned(),
        "info depth 3 multipv 2 score cp 30 pv e2e4".to_owned(),
        "info depth 3 multipv 3 score cp 20 pv e2e4 e7e5".to_owned(),
        "info depth 3 score cp 99 pv d2d4".to_owned(),
        "info depth 3 multipv 4 score cp x pv d2d4".to_owned(),
        "info depth 3 multipv 5 score cp 30 pv e2e5".to_owned(),
        "info depth 3 multipv 6 score cp -5 pv  b1c3".to_owned(),
    ];
    let parsed = parse_multipv_candidates(&lines, &game);
    let e2e4 = long_algebraic_to_move_description("e2e4", &game).unwrap();
    let g1f3 = long_algebraic_to_move_description("g1f3", &game).unwrap();
    let b1c3 = long_algebraic_to_move_description("b1c3", &game).unwrap();
    assert_eq!(
        parsed,
        vec![
            ScoredMove { mv: e2e4, cp: 30 },
            ScoredMove { mv: g1f3, cp: 10 },
            ScoredMove { mv: b1c3, cp: -5 },
        ]
    );
    let resolved = vec![Some(7), Some(8), Some(7)];
    let tied = scored_candidates(&lines[..3], &resolved);
    assert_eq!(tied, vec![ScoredMove { mv: 8, cp: 30 }, ScoredMove { mv: 7, cp: 10 }]);
}

#[test]
fn weighted_pick_walks_the_allowed_candidates() {
    let candidates = vec![
        ScoredMove { mv: 10, cp: 100 },
        ScoredMove { mv: 20, cp: 95 },
        ScoredMove { mv: 30, cp: 80 },
    ];
    // Allowed loss 10: weights 11 (loss 0) and 6 (loss 5); 80 is too far.
    assert_eq!(select_with_pick(&candidates, 10, 0), Some((10, 0, 10)));
    assert_eq!(select_with_pick(&candidates, 10, 10), Some((10, 0, 10)));
    assert_eq!(select_with_pick(&candidates, 10, 11), Some((20, 5, 10)));
    assert_eq!(select_with_pick(&candidates, 10, 16), Some((20, 5, 10)));
    assert_eq!(select_with_pick(&candidates, 10, 17), Some((10, 0, 10)));
    for _ in 0..20 {
        let chosen = choose_humanized_move(&candidates, 10).unwrap();
        assert!(chosen == (10, 0, 10) || chosen == (20, 5, 10));
    }
}
