use plum_chess::board_location::BoardLocation;
use plum_chess::chess_types::Color;
use plum_chess::engine_greedy_1_move::select_greedy_1_move;
use plum_chess::game_state::GameState;
use plum_chess::generate_all_moves::generate_all_moves;

#[test]
fn greedy_one_move_takes_the_material() {
    let game = GameState::from_fen("4k3/8/8/3r4/8/8/3Q4/4K3 w - - 0 1").unwrap();
    let moves = generate_all_moves(&game).unwrap();
    let best = select_greedy_1_move(&moves, Color::Light).expect("a move");
    let d5 = BoardLocation::from_long_algebraic("d5").unwrap();
    assert_eq!(best.vector.destination.binary_location, d5.binary_location);
}

#[test]
fn greedy_one_move_keeps_nothing_below_an_even_score() {
    let game = GameState::from_fen("4k3/8/8/8/8/8/8/q3K3 w - - 0 1").unwrap();
    let moves = generate_all_moves(&game).unwrap();
    assert!(!moves.is_empty());
    assert!(select_greedy_1_move(&moves, Color::Light).is_none());
}
