use vstd::prelude::*;
use crate::timing::duration_compare;

verus! {

/// The requests that the control thread has raised for the worker, as read at
/// one wake.
#[derive(Clone, Copy, Debug, PartialEq, Eq, Structural)]
pub struct Signals {
    /// Stop the worker.
    pub exit_requested: bool,
    /// The interval was edited: recompute the wait.
    pub retime_requested: bool,
    /// Take a snapshot now.
    pub manual_trigger_requested: bool,
}

/// What a wake of the worker came to.
#[derive(Clone, Copy, Debug, PartialEq, Eq, Structural)]
pub enum Wake {
    /// The full wait elapsed: take the scheduled snapshot.
    Scheduled,
    /// The interval changed: the retime request is consumed and no snapshot
    /// is taken.
    Retimed,
    /// An operator asked for a snapshot: the request is consumed and the
    /// snapshot is taken at once.
    Manual,
    /// Woken early with nothing to do.
    Spurious,
}

impl Wake {
    /// Whether the worker takes a snapshot (and prunes) after this wake.
    pub open spec fn spec_takes_snapshot(&self) -> bool {
        self is Scheduled || self is Manual
    }

    #[verifier::when_used_as_spec(spec_takes_snapshot)]
    pub fn takes_snapshot(&self) -> (r: bool)
        ensures
            r == self.spec_takes_snapshot(),
    {
        match self {
            Wake::Scheduled | Wake::Manual => true,
            _ => false,
        }
    }
}

/// Clamped subtraction in milliseconds, floor zero.
pub open spec fn clamped(a: int, b: int) -> int {
    if a >= b {
        a - b
    } else {
        0
    }
}

/// The outcome of a wake after sleeping `elapsed` out of `slept`
/// milliseconds: the full wait is a scheduled snapshot; an early wake honours
/// a retime first, then a manual trigger.
pub open spec fn wake_outcome(slept: u64, elapsed: u64, signals: Signals) -> Wake {
    if elapsed >= slept {
        Wake::Scheduled
    } else if signals.retime_requested {
        Wake::Retimed
    } else if signals.manual_trigger_requested {
        Wake::Manual
    } else {
        Wake::Spurious
    }
}

/// The wait carried into the next cycle: after a retime, what the elapsed
/// time exceeds the interval by; after a manual snapshot, what was left of the
/// interval; otherwise nothing (the next cycle waits a full interval).
pub open spec fn carried_wait(slept: u64, elapsed: u64, signals: Signals, interval: u64) -> Option<u64> {
    match wake_outcome(slept, elapsed, signals) {
        Wake::Retimed => Some(clamped(elapsed as int, interval as int) as u64),
        Wake::Manual => Some(clamped(interval as int, elapsed as int) as u64),
        _ => None,
    }
}

/// The requests left standing after a wake: the one honoured is cleared.
pub open spec fn signals_after(slept: u64, elapsed: u64, signals: Signals) -> Signals {
    match wake_outcome(slept, elapsed, signals) {
        Wake::Retimed => Signals { retime_requested: false, ..signals },
        Wake::Manual => Signals { manual_trigger_requested: false, ..signals },
        _ => signals,
    }
}

/// The worker's own state between cycles.
pub struct Worker {
    /// A wait left over from an interrupted cycle, used instead of the
    /// interval by the next one.
    pub pending: Option<u64>,
}

impl Worker {
    /// A worker that starts with a full interval.
    pub fn new() -> (r: Worker)
        ensures
            r.pending is None,
    {
        Worker { pending: None }
    }

    /// Starts a cycle: `None` where an exit was asked for, so that the worker
    /// stops without a snapshot; otherwise how long to sleep, which is the
    /// wait carried over (consumed here) or else the interval.
    pub fn begin_cycle(&mut self, signals: Signals, interval: u64) -> (r: Option<u64>)
        ensures
            signals.exit_requested ==> r is None && final(self).pending == old(self).pending,
            !signals.exit_requested ==> r == Some(
                match old(self).pending {
                    Some(d) => d,
                    None => interval,
                },
            ) && final(self).pending is None,
    {
        if signals.exit_requested {
            return None;
        }
        let d = match self.pending {
            Some(d) => d,
            None => interval,
        };
        self.pending = None;
        Some(d)
    }

    /// Decides what a wake comes to, after sleeping `elapsed` out of `slept`
    /// milliseconds under the current `interval`. Clears the request it
    /// honours and sets the wait that the next cycle carries.
    pub fn on_wake(&mut self, signals: &mut Signals, slept: u64, elapsed: u64, interval: u64) -> (r:
        Wake)
        ensures
            r == wake_outcome(slept, elapsed, *old(signals)),
            *final(signals) == signals_after(slept, elapsed, *old(signals)),
            final(self).pending == carried_wait(slept, elapsed, *old(signals), interval),
    {
        if elapsed >= slept {
            self.pending = None;
            Wake::Scheduled
        } else if signals.retime_requested {
            signals.retime_requested = false;
            self.pending = Some(duration_compare(elapsed, interval, None));
            Wake::Retimed
        } else if signals.manual_trigger_requested {
            signals.manual_trigger_requested = false;
            self.pending = Some(duration_compare(interval, elapsed, None));
            Wake::Manual
        } else {
            self.pending = None;
            Wake::Spurious
        }
    }
}

/// When the next snapshot is due: `now` plus the sleep, both in
/// milliseconds, held at the largest time that can be written.
pub fn next_fire_time(now: i64, sleep_for: u64) -> (r: i64)
    ensures
        r as int == if now as int + sleep_for as int > i64::MAX as int {
            i64::MAX as int
        } else {
            now as int + sleep_for as int
        },
{
    let t = now as i128 + sleep_for as i128;
    if t > i64::MAX as i128 {
        i64::MAX
    } else {
        t as i64
    }
}

/// How long the control thread may wait for input: until one millisecond
/// before the next snapshot is due, and not at all where that has passed.
pub fn input_timeout(next_fire: i64, now: i64) -> (r: u64)
    ensures
        r as int == clamped(next_fire as int - 1, now as int),
{
    let t = next_fire as i128 - 1 - now as i128;
    if t > 0 {
        t as u64
    } else {
        0
    }
}

/// Where a retime and a manual trigger are both raised at an early wake, the
/// retime is honoured and the trigger stays raised; at the next early wake,
/// with no new retime, the snapshot is taken and the trigger cleared.
pub proof fn lemma_retime_before_manual(
    signals: Signals,
    slept: u64,
    elapsed: u64,
    slept_next: u64,
    elapsed_next: u64,
)
    requires
        signals.retime_requested,
        signals.manual_trigger_requested,
        elapsed < slept,
        elapsed_next < slept_next,
    ensures
        wake_outcome(slept, elapsed, signals) == Wake::Retimed,
        signals_after(slept, elapsed, signals).manual_trigger_requested,
        !signals_after(slept, elapsed, signals).retime_requested,
        wake_outcome(slept_next, elapsed_next, signals_after(slept, elapsed, signals))
            == Wake::Manual,
        !signals_after(
            slept_next,
            elapsed_next,
            signals_after(slept, elapsed, signals),
        ).manual_trigger_requested,
{
}

} // verus!
