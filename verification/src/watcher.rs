//! The watcher loop as a state machine. A watcher runs inside a detached
//! child process; each pass runs the sync operation, reports a failure
//! without aborting, and sleeps the fixed interval. The machine leaves the
//! running state only through an external signal, never by its own step.

use vstd::prelude::*;

verus! {

/// The two states of a watcher process. `Terminated` is reached only from
/// outside (a delivered signal); no step of the loop produces it.
#[derive(Clone, Copy, PartialEq, Eq, Structural, Debug)]
pub enum WatcherState {
    Running,
    Terminated,
}

/// What one pass of the loop asks its host process to do next.
#[derive(Clone, Copy, PartialEq, Eq, Structural, Debug)]
pub struct WatcherDirective {
    /// Report the failed sync to the error stream; never abort for it.
    pub report_failure: bool,
    /// Sleep exactly this many seconds after the pass: no jitter, no
    /// backoff, no catch-up.
    pub sleep_secs: u64,
    /// The state the machine is in afterwards.
    pub next: WatcherState,
}

/// The state after one pass: a running watcher keeps running whatever the
/// sync outcome was.
pub open spec fn spec_watcher_next(state: WatcherState, sync_failed: bool) -> WatcherState {
    state
}

/// The state after a whole sequence of passes.
pub open spec fn spec_watcher_run(state: WatcherState, failures: Seq<bool>) -> WatcherState
    decreases failures.len(),
{
    if failures.len() == 0 {
        state
    } else {
        spec_watcher_next(spec_watcher_run(state, failures.drop_last()), failures.last())
    }
}

/// One pass of the watcher loop, decided from the sync outcome: the failure
/// is reported exactly when the sync failed, the sleep is exactly the
/// configured interval, and the machine stays in its state.
pub fn watcher_step(state: WatcherState, sync_failed: bool, interval: u64) -> (r: WatcherDirective)
    ensures
        r.next == spec_watcher_next(state, sync_failed),
        r.next == state,
        r.report_failure == sync_failed,
        r.sleep_secs == interval,
{
    WatcherDirective { report_failure: sync_failed, sleep_secs: interval, next: state }
}

/// A running watcher never terminates on its own: after any number of
/// passes, with any pattern of sync failures, it is still running. One pass
/// is made per element, so a window of n passes makes n sync attempts.
pub proof fn lemma_watcher_never_stops(failures: Seq<bool>)
    ensures
        spec_watcher_run(WatcherState::Running, failures) == WatcherState::Running,
    decreases failures.len(),
{
    if failures.len() > 0 {
        lemma_watcher_never_stops(failures.drop_last());
    }
}

} // verus!
