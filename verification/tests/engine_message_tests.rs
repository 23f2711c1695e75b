use plum_chess::chess_engine_thread_trait::{
    calculating_within_time, on_control_message, EngineControlMessageType, ReplyKind,
};
use plum_chess::game_state::GameState;

#[test]
fn start_and_stop_messages_set_the_status() {
    let e = on_control_message(false, Some(EngineControlMessageType::StartCalculating));
    assert!(e.calculating);
    assert!(e.restart_clock);
    assert_eq!(e.reply, ReplyKind::NoReply);
    let e = on_control_message(true, Some(EngineControlMessageType::StopNow));
    assert!(!e.calculating);
    assert!(!e.restart_clock);
}

#[test]
fn queries_are_answered_without_changing_the_status() {
    let e = on_control_message(true, Some(EngineControlMessageType::AreYouStillCalculating));
    assert_eq!(e.reply, ReplyKind::Status(true));
    assert!(e.calculating);
    let e = on_control_message(false, Some(EngineControlMessageType::GiveMeYourBestMoveSoFar));
    assert_eq!(e.reply, ReplyKind::BestMove);
    assert!(!e.calculating);
    let e = on_control_message(true, Some(EngineControlMessageType::GiveMeAStringToLog));
    assert_eq!(e.reply, ReplyKind::NextLogLine);
    let e = on_control_message(true, None);
    assert_eq!(e.reply, ReplyKind::NoReply);
    assert!(e.calculating);
}

#[test]
fn time_limit_stops_the_calculation() {
    assert!(calculating_within_time(true, 10, 11));
    assert!(!calculating_within_time(true, 11, 11));
    assert!(!calculating_within_time(false, 0, 11));
}

#[test]
fn move_counters_of_a_position() {
    let game = GameState::from_fen("8/2p5/3p4/KP5r/5R1k/8/4P1P1/8 b - - 7 42").unwrap();
    let c = game.move_counters();
    assert_eq!(c.half_move_clock, 7);
    assert_eq!(c.full_move_count, 42);
}
