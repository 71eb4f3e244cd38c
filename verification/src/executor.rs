//! The decisions of a caller that runs a plan on a worker under a
//! deadline. The caller waits, the worker plans; this module says what the
//! caller does when something happens.

use crate::grid::Position;
use vstd::prelude::*;

verus! {

/// What a run reports: moves made, their cost, the final position.
pub type Outcome = (usize, i64, Position);

/// Where the caller stands.
#[derive(Clone, Copy, PartialEq, Eq, Structural, Debug)]
pub enum Phase {
    /// Waiting for the worker's report, until the deadline.
    Waiting,
    /// The stop was requested; waiting for the worker to end.
    Stopping,
    /// The call has its answer.
    Finished,
}

/// What can happen while the caller waits.
#[derive(Clone, Copy, Debug)]
pub enum Event {
    /// The worker reported its result before the deadline.
    Reported(Outcome),
    /// The deadline passed, or the worker can no longer report.
    DeadlinePassed,
    /// The worker ended; it handed back a result unless it failed.
    WorkerEnded(Option<Outcome>),
}

/// What the caller does next.
#[derive(Clone, Copy, Debug)]
pub enum Action {
    /// Go on waiting.
    KeepWaiting,
    /// Raise the stop signal, then wait for the worker to end.
    RequestStop,
    /// Make sure the worker has ended, then return this answer.
    Return(Option<Outcome>),
}

/// The caller's rule. A report in time is the answer. When the deadline
/// passes first, the stop is requested once, and the answer is whatever the
/// worker hands back when it ends: its result, partial or complete, or
/// nothing when it failed. Anything else changes nothing.
pub open spec fn react(phase: Phase, event: Event) -> (Phase, Action) {
    match (phase, event) {
        (Phase::Waiting, Event::Reported(result)) => (Phase::Finished, Action::Return(Some(result))),
        (Phase::Waiting, Event::DeadlinePassed) => (Phase::Stopping, Action::RequestStop),
        (Phase::Stopping, Event::WorkerEnded(result)) => (Phase::Finished, Action::Return(result)),
        _ => (phase, Action::KeepWaiting),
    }
}

/// Applies the caller's rule.
pub fn on_event(phase: Phase, event: Event) -> (next: (Phase, Action))
    ensures
        next == react(phase, event),
{
    match phase {
        Phase::Waiting => match event {
            Event::Reported(result) => (Phase::Finished, Action::Return(Some(result))),
            Event::DeadlinePassed => (Phase::Stopping, Action::RequestStop),
            Event::WorkerEnded(_) => (phase, Action::KeepWaiting),
        },
        Phase::Stopping => match event {
            Event::WorkerEnded(result) => (Phase::Finished, Action::Return(result)),
            _ => (phase, Action::KeepWaiting),
        },
        Phase::Finished => (phase, Action::KeepWaiting),
    }
}

/// The phases only move forward: a finished call stays finished, a stop is
/// requested only while waiting and so at most once, and an answer is
/// returned exactly when the call becomes finished.
pub proof fn lemma_phases_move_forward(phase: Phase, event: Event)
    ensures
        phase == Phase::Finished ==> react(phase, event) == (Phase::Finished, Action::KeepWaiting),
        react(phase, event).1 == Action::RequestStop ==> phase == Phase::Waiting && react(
            phase,
            event,
        ).0 == Phase::Stopping,
        phase == Phase::Stopping ==> react(phase, event).0 != Phase::Waiting,
        react(phase, event).1 is Return <==> phase != Phase::Finished && react(phase, event).0
            == Phase::Finished,
{
}

} // verus!
