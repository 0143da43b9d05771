//! The `--watch` debounce: a save produces a burst of filesystem events;
//! the review reloads once, after a quiet period with no new event.

use vstd::prelude::*;

verus! {

/// What the main loop does about the watcher this turn.
#[derive(Debug, Clone, Copy, PartialEq, Eq, Structural)]
pub enum WatchAction {
    /// Nothing pending.
    Idle,
    /// Fresh events: (re)start the quiet-period timer.
    Restart,
    /// Events are pending but the quiet period is not over.
    Wait,
    /// The quiet period is over: reload once and stop the timer.
    Reload,
}

/// The debounce decision: fresh events restart the timer; a running timer
/// fires the reload once `elapsed_ms` reaches the quiet period; with no
/// timer and no events there is nothing to do.
pub open spec fn watch_spec(timer_running: bool, fresh_events: bool, elapsed_ms: u64, quiet_ms: u64) -> WatchAction {
    if fresh_events {
        WatchAction::Restart
    } else if timer_running {
        if elapsed_ms >= quiet_ms {
            WatchAction::Reload
        } else {
            WatchAction::Wait
        }
    } else {
        WatchAction::Idle
    }
}

/// Decide this turn's watcher action from whether the quiet-period timer
/// runs, whether new events arrived, and the time since the timer started.
pub fn watch_step(timer_running: bool, fresh_events: bool, elapsed_ms: u64, quiet_ms: u64) -> (a: WatchAction)
    ensures
        a == watch_spec(timer_running, fresh_events, elapsed_ms, quiet_ms),
{
    if fresh_events {
        WatchAction::Restart
    } else if timer_running {
        if elapsed_ms >= quiet_ms {
            WatchAction::Reload
        } else {
            WatchAction::Wait
        }
    } else {
        WatchAction::Idle
    }
}

/// Whether the timer runs after an action.
pub open spec fn timer_after(a: WatchAction) -> bool {
    a == WatchAction::Restart || a == WatchAction::Wait
}

/// A reload only ever comes from a running timer with no new events, and
/// stops it; new events never reload at once, they postpone the reload.
pub proof fn law_reload_waits_for_quiet(timer_running: bool, fresh_events: bool, elapsed_ms: u64, quiet_ms: u64)
    ensures
        watch_spec(timer_running, fresh_events, elapsed_ms, quiet_ms) == WatchAction::Reload
            ==> timer_running && !fresh_events && elapsed_ms >= quiet_ms && !timer_after(
            WatchAction::Reload,
        ),
        fresh_events ==> watch_spec(timer_running, fresh_events, elapsed_ms, quiet_ms)
            == WatchAction::Restart,
{
}

} // verus!
