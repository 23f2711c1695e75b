//! Messages between a threaded engine and its controller, and the
//! decisions one tick of such an engine makes: how a control message
//! changes the engine's calculating status and what it answers, and when
//! the time limit stops the calculation.

use vstd::prelude::*;
use crate::chess_errors::ChessErrors;
use crate::move_description::MoveDescription;

verus! {

/// Control messages sent to an engine thread.
#[derive(Debug, Clone, Copy, PartialEq, Eq, Structural)]
pub enum EngineControlMessageType {
    StartCalculating,
    AreYouStillCalculating,
    GiveMeYourBestMoveSoFar,
    GiveMeAStringToLog,
    StopNow,
}

/// Responses sent back by an engine thread.
#[derive(Debug)]
pub enum EngineResponseMessageType {
    BestMoveFound(Option<MoveDescription>),
    HadAnError(ChessErrors),
    StillCalculatingStatus(bool),
    StringToLog(Option<String>),
}

/// What the engine answers a control message with.
#[derive(Debug, Clone, Copy, PartialEq, Eq, Structural)]
pub enum ReplyKind {
    /// Nothing.
    NoReply,
    /// Its calculating status (after the message).
    Status(bool),
    /// Its best move so far.
    BestMove,
    /// The next pending log line, taken off the log.
    NextLogLine,
}

/// The effect of one control message on an engine.
#[derive(Debug, Clone, Copy, PartialEq, Eq, Structural)]
pub struct MessageEffect {
    /// Whether the engine calculates after the message.
    pub calculating: bool,
    /// Whether the search clock starts again.
    pub restart_clock: bool,
    /// What the engine answers.
    pub reply: ReplyKind,
}

/// The effect of `message` on an engine whose status is `calculating`:
/// starting sets the status and restarts the clock, stopping clears it,
/// the three queries are answered, and no message changes nothing.
pub open spec fn message_effect(calculating: bool, message: Option<EngineControlMessageType>) -> MessageEffect {
    match message {
        Some(EngineControlMessageType::StartCalculating) => MessageEffect {
            calculating: true,
            restart_clock: true,
            reply: ReplyKind::NoReply,
        },
        Some(EngineControlMessageType::AreYouStillCalculating) => MessageEffect {
            calculating,
            restart_clock: false,
            reply: ReplyKind::Status(calculating),
        },
        Some(EngineControlMessageType::StopNow) => MessageEffect {
            calculating: false,
            restart_clock: false,
            reply: ReplyKind::NoReply,
        },
        Some(EngineControlMessageType::GiveMeYourBestMoveSoFar) => MessageEffect {
            calculating,
            restart_clock: false,
            reply: ReplyKind::BestMove,
        },
        Some(EngineControlMessageType::GiveMeAStringToLog) => MessageEffect {
            calculating,
            restart_clock: false,
            reply: ReplyKind::NextLogLine,
        },
        None => MessageEffect { calculating, restart_clock: false, reply: ReplyKind::NoReply },
    }
}

/// How a control message changes an engine and what it answers.
pub fn on_control_message(calculating: bool, message: Option<EngineControlMessageType>) -> (r: MessageEffect)
    ensures
        r == message_effect(calculating, message),
{
    match message {
        Some(EngineControlMessageType::StartCalculating) => MessageEffect {
            calculating: true,
            restart_clock: true,
            reply: ReplyKind::NoReply,
        },
        Some(EngineControlMessageType::AreYouStillCalculating) => MessageEffect {
            calculating,
            restart_clock: false,
            reply: ReplyKind::Status(calculating),
        },
        Some(EngineControlMessageType::StopNow) => MessageEffect {
            calculating: false,
            restart_clock: false,
            reply: ReplyKind::NoReply,
        },
        Some(EngineControlMessageType::GiveMeYourBestMoveSoFar) => MessageEffect {
            calculating,
            restart_clock: false,
            reply: ReplyKind::BestMove,
        },
        Some(EngineControlMessageType::GiveMeAStringToLog) => MessageEffect {
            calculating,
            restart_clock: false,
            reply: ReplyKind::NextLogLine,
        },
        None => MessageEffect { calculating, restart_clock: false, reply: ReplyKind::NoReply },
    }
}

/// Whether the engine still calculates once the time spent is known: the
/// calculation stops when the elapsed time reaches the limit.
pub fn calculating_within_time(calculating: bool, elapsed_micros: u128, limit_micros: u128) -> (r: bool)
    ensures
        r == (calculating && elapsed_micros < limit_micros),
{
    if elapsed_micros >= limit_micros {
        false
    } else {
        calculating
    }
}

/// A stop request always ends the calculation, and a start request always
/// begins it with a fresh clock, whatever the engine was doing.
pub proof fn lemma_start_and_stop(calculating: bool)
    ensures
        !message_effect(calculating, Some(EngineControlMessageType::StopNow)).calculating,
        message_effect(calculating, Some(EngineControlMessageType::StartCalculating)).calculating,
        message_effect(calculating, Some(EngineControlMessageType::StartCalculating)).restart_clock,
{
}

/// Queries change neither the status nor the clock.
pub proof fn lemma_queries_keep_status(calculating: bool, message: EngineControlMessageType)
    requires
        message != EngineControlMessageType::StartCalculating,
        message != EngineControlMessageType::StopNow,
    ensures
        message_effect(calculating, Some(message)).calculating == calculating,
        !message_effect(calculating, Some(message)).restart_clock,
{
}

} // verus!
