//! The order in which the server is shut down.

use vstd::prelude::*;

verus! {

/// The status with which the process ends when it is told a second time to
/// stop while it drains.
pub const FORCED_EXIT_CODE: i32 = 137;

/// Where the server stands in its life.
#[derive(Clone, Copy, Debug, PartialEq, Eq, Structural)]
pub enum Phase {
    /// Requests are served.
    Serving,
    /// No new connections are taken; those under way are finished.
    Draining,
    /// The listener has ended; the task that reloads is waited for.
    Closing,
    /// Nothing is left to wait for.
    Finished,
}

/// What happened.
#[derive(Clone, Copy, Debug, PartialEq, Eq, Structural)]
pub enum Signal {
    /// The process was told to stop.
    Interrupt,
    /// The listener ended.
    ServerEnded,
    /// The task that reloads ended.
    ReloaderEnded,
}

/// What is to be done.
#[derive(Clone, Copy, Debug, PartialEq, Eq, Structural)]
pub enum Order {
    /// Nothing.
    Nothing,
    /// Stop taking connections, and tell the task that reloads to terminate.
    BeginShutdown,
    /// End the process at once, with this status.
    Exit(i32),
    /// Stop waiting, and say that the task that reloads was not waited for.
    Abandon,
    /// Leave in good order.
    Leave,
}

/// The phase after a signal, and what is to be done. The first interrupt
/// begins the shutdown; a second one while connections are drained ends the
/// process at once with the status for a forced exit; one that comes while
/// only the task that reloads is waited for ends the wait.
pub open spec fn turn(phase: Phase, signal: Signal) -> (Phase, Order) {
    match (phase, signal) {
        (Phase::Serving, Signal::Interrupt) => (Phase::Draining, Order::BeginShutdown),
        (Phase::Serving, Signal::ServerEnded) => (Phase::Closing, Order::Nothing),
        (Phase::Draining, Signal::Interrupt) => (Phase::Finished, Order::Exit(FORCED_EXIT_CODE)),
        (Phase::Draining, Signal::ServerEnded) => (Phase::Closing, Order::Nothing),
        (Phase::Closing, Signal::Interrupt) => (Phase::Finished, Order::Abandon),
        (Phase::Closing, Signal::ReloaderEnded) => (Phase::Finished, Order::Leave),
        (phase, _) => (phase, Order::Nothing),
    }
}

/// The phase after a signal, and what is to be done, see `turn`.
pub fn on_signal(phase: Phase, signal: Signal) -> (r: (Phase, Order))
    ensures
        r == turn(phase, signal),
{
    match (phase, signal) {
        (Phase::Serving, Signal::Interrupt) => (Phase::Draining, Order::BeginShutdown),
        (Phase::Serving, Signal::ServerEnded) => (Phase::Closing, Order::Nothing),
        (Phase::Draining, Signal::Interrupt) => (Phase::Finished, Order::Exit(FORCED_EXIT_CODE)),
        (Phase::Draining, Signal::ServerEnded) => (Phase::Closing, Order::Nothing),
        (Phase::Closing, Signal::Interrupt) => (Phase::Finished, Order::Abandon),
        (Phase::Closing, Signal::ReloaderEnded) => (Phase::Finished, Order::Leave),
        (phase, _) => (phase, Order::Nothing),
    }
}

} // verus!
