//! Strategies for what a polling loop does when it finds no work. A strategy decides;
//! the caller acts.

use vstd::prelude::*;
use std::sync::atomic::{AtomicU64, Ordering};

verus! {

/// What a caller has to do after it has asked a strategy how to idle.
#[derive(Debug, Clone, Copy, PartialEq, Eq, Structural)]
pub enum IdleAction {
    /// Nothing: go on with the work.
    Proceed,
    /// Give the processor a hint that the caller spins.
    Spin,
    /// Let another thread run.
    Yield,
    /// Sleep for this many nanoseconds.
    Sleep { nanos: u64 },
    /// Block until another thread unparks the caller.
    Park,
}

/// A policy for what a loop does between two polls: `idle` is told how much work the
/// last poll found, with zero for none, and says what the caller has to do.
pub trait IdleStrategy {
    fn idle(&mut self, work_count: usize) -> IdleAction;

    fn reset(&mut self);
}

/// The strategy that always spins.
pub struct BusySpinIdleStrategy;

impl BusySpinIdleStrategy {
    pub fn new() -> Self {
        Self
    }
}

impl Default for BusySpinIdleStrategy {
    fn default() -> Self {
        Self::new()
    }
}

impl IdleStrategy for BusySpinIdleStrategy {
    fn idle(&mut self, work_count: usize) -> (action: IdleAction)
        ensures
            action == IdleAction::Spin,
    {
        IdleAction::Spin
    }

    fn reset(&mut self) {
    }
}

/// The strategy that spins first, then yields, then sleeps for longer and longer.
pub struct BackoffIdleStrategy {
    max_yields: u64,
    max_spins: u64,
    min_park_nanos: u64,
    max_park_nanos: u64,
    yields: u64,
    spins: u64,
    park_nanos: u64,
}

/// What a backoff strategy holds: its four settings and how far it has backed off.
pub struct Backoff {
    pub max_spins: u64,
    pub max_yields: u64,
    pub min_park_nanos: u64,
    pub max_park_nanos: u64,
    pub spins: u64,
    pub yields: u64,
    pub park_nanos: u64,
}

impl Backoff {
    /// The state in which the next idle tick starts over: nothing spun, nothing
    /// yielded, and the shortest sleep to come.
    pub open spec fn rested(self) -> Backoff {
        Backoff { spins: 0, yields: 0, park_nanos: self.min_park_nanos, ..self }
    }

    /// Whether the next idle tick spins.
    pub open spec fn in_spin_phase(self) -> bool {
        self.spins < self.max_spins
    }

    /// Whether the next idle tick yields.
    pub open spec fn in_yield_phase(self) -> bool {
        !self.in_spin_phase() && self.yields < self.max_yields
    }

    /// The sleep that follows one of `nanos`: twice as long, and at most the longest.
    pub open spec fn next_park(self, nanos: u64) -> u64 {
        if 2 * nanos <= self.max_park_nanos {
            (2 * nanos) as u64
        } else {
            self.max_park_nanos
        }
    }

    /// The state after a tick that found `work_count` pieces of work.
    pub open spec fn after(self, work_count: usize) -> Backoff {
        if work_count > 0 {
            self.rested()
        } else if self.in_spin_phase() {
            Backoff { spins: (self.spins + 1) as u64, ..self }
        } else if self.in_yield_phase() {
            Backoff { yields: (self.yields + 1) as u64, ..self }
        } else {
            Backoff { park_nanos: self.next_park(self.park_nanos), ..self }
        }
    }

    /// What the caller has to do on a tick that found `work_count` pieces of work.
    pub open spec fn action(self, work_count: usize) -> IdleAction {
        if work_count > 0 {
            IdleAction::Proceed
        } else if self.in_spin_phase() {
            IdleAction::Spin
        } else if self.in_yield_phase() {
            IdleAction::Yield
        } else {
            IdleAction::Sleep { nanos: self.park_nanos }
        }
    }
}

impl View for BackoffIdleStrategy {
    type V = Backoff;

    closed spec fn view(&self) -> Backoff {
        Backoff {
            max_spins: self.max_spins,
            max_yields: self.max_yields,
            min_park_nanos: self.min_park_nanos,
            max_park_nanos: self.max_park_nanos,
            spins: self.spins,
            yields: self.yields,
            park_nanos: self.park_nanos,
        }
    }
}

impl BackoffIdleStrategy {
    /// A strategy that spins up to `max_spins` times, then yields up to `max_yields`
    /// times, then sleeps: first for `min_park_nanos` nanoseconds, and each time
    /// twice as long as before, up to `max_park_nanos`.
    pub fn new(max_spins: u64, max_yields: u64, min_park_nanos: u64, max_park_nanos: u64) -> (strategy:
        Self)
        ensures
            strategy@ == (Backoff {
                max_spins,
                max_yields,
                min_park_nanos,
                max_park_nanos,
                spins: 0,
                yields: 0,
                park_nanos: min_park_nanos,
            }),
    {
        Self {
            max_yields,
            max_spins,
            min_park_nanos,
            max_park_nanos,
            yields: 0,
            spins: 0,
            park_nanos: min_park_nanos,
        }
    }
}

impl Default for BackoffIdleStrategy {
    /// Ten spins, five yields, and sleeps from one nanosecond to one millisecond.
    fn default() -> (strategy: Self)
        ensures
            strategy@ == (Backoff {
                max_spins: 10,
                max_yields: 5,
                min_park_nanos: 1,
                max_park_nanos: 1_000_000,
                spins: 0,
                yields: 0,
                park_nanos: 1,
            }),
    {
        Self::new(10, 5, 1, 1_000_000)
    }
}

impl IdleStrategy for BackoffIdleStrategy {
    /// A tick with work starts the backoff over. A tick without work spins while
    /// there are spins left, then yields while there are yields left, then sleeps.
    fn idle(&mut self, work_count: usize) -> (action: IdleAction)
        ensures
            final(self)@ == old(self)@.after(work_count),
            action == old(self)@.action(work_count),
    {
        if work_count > 0 {
            self.reset();
            IdleAction::Proceed
        } else if self.spins < self.max_spins {
            self.spins = self.spins + 1;
            IdleAction::Spin
        } else if self.yields < self.max_yields {
            self.yields = self.yields + 1;
            IdleAction::Yield
        } else {
            let nanos = self.park_nanos;
            self.park_nanos = if nanos <= self.max_park_nanos / 2 {
                nanos * 2
            } else {
                self.max_park_nanos
            };
            IdleAction::Sleep { nanos }
        }
    }

    fn reset(&mut self)
        ensures
            final(self)@ == old(self)@.rested(),
    {
        self.spins = 0;
        self.yields = 0;
        self.park_nanos = self.min_park_nanos;
    }
}

/// After a tick with work, the next tick without work starts in the spin phase: it
/// spins where the strategy can spin at all, and it sleeps no longer than the
/// shortest sleep where it can neither spin nor yield.
pub proof fn lemma_work_restarts_backoff(state: Backoff, work_count: usize)
    requires
        work_count > 0,
    ensures
        state.after(work_count).spins == 0,
        state.after(work_count).yields == 0,
        state.after(work_count).park_nanos == state.min_park_nanos,
        state.max_spins > 0 ==> state.after(work_count).action(0) == IdleAction::Spin,
        state.max_spins == 0 && state.max_yields > 0 ==> state.after(work_count).action(0)
            == IdleAction::Yield,
        state.max_spins == 0 && state.max_yields == 0 ==> state.after(work_count).action(0) == (
        IdleAction::Sleep { nanos: state.min_park_nanos }),
{
}

/// The strategy that sleeps for a fixed time on every tick without work.
pub struct SleepingIdleStrategy {
    sleep_nanos: u64,
}

impl SleepingIdleStrategy {
    /// The nanoseconds for which the strategy sleeps.
    pub closed spec fn view(&self) -> u64 {
        self.sleep_nanos
    }

    pub fn new(sleep_nanos: u64) -> (strategy: Self)
        ensures
            strategy@ == sleep_nanos,
    {
        Self { sleep_nanos }
    }
}

impl Default for SleepingIdleStrategy {
    /// Sleeps of one millisecond.
    fn default() -> (strategy: Self)
        ensures
            strategy@ == 1_000_000,
    {
        Self::new(1_000_000)
    }
}

impl IdleStrategy for SleepingIdleStrategy {
    fn idle(&mut self, work_count: usize) -> (action: IdleAction)
        ensures
            final(self)@ == old(self)@,
            action == (if work_count == 0 {
                IdleAction::Sleep { nanos: old(self)@ }
            } else {
                IdleAction::Proceed
            }),
    {
        if work_count == 0 {
            IdleAction::Sleep { nanos: self.sleep_nanos }
        } else {
            IdleAction::Proceed
        }
    }

    fn reset(&mut self)
        ensures
            final(self)@ == old(self)@,
    {
    }
}

/// The status in which a controllable strategy spins.
pub const RUNNING: u64 = 0;

pub const SPINNING: u64 = 1;

pub const YIELDING: u64 = 2;

/// The status in which a controllable strategy parks.
pub const PARKING: u64 = 3;

/// The strategy that another thread steers through a status word: it spins while
/// the status is `RUNNING`, parks while it is `PARKING`, and backs off otherwise.
pub struct ControllableIdleStrategy {
    status: AtomicU64,
    busy_spin_strategy: BusySpinIdleStrategy,
    backoff_strategy: BackoffIdleStrategy,
}

impl ControllableIdleStrategy {
    /// The state of the backoff that the strategy falls back on.
    pub closed spec fn backoff(&self) -> Backoff {
        self.backoff_strategy@
    }

    /// What the strategy does on a tick on which its status word reads `status`.
    pub open spec fn action_in(backoff: Backoff, status: u64, work_count: usize) -> IdleAction {
        if status == RUNNING {
            IdleAction::Spin
        } else if status == PARKING {
            IdleAction::Park
        } else {
            backoff.action(work_count)
        }
    }

    /// The state of the backoff after a tick on which the status word reads `status`.
    pub open spec fn backoff_after(backoff: Backoff, status: u64, work_count: usize) -> Backoff {
        if status == RUNNING || status == PARKING {
            backoff
        } else {
            backoff.after(work_count)
        }
    }

    /// A strategy in the status `RUNNING`, with the default backoff.
    pub fn new() -> (strategy: Self)
        ensures
            strategy.backoff() == (Backoff {
                max_spins: 10,
                max_yields: 5,
                min_park_nanos: 1,
                max_park_nanos: 1_000_000,
                spins: 0,
                yields: 0,
                park_nanos: 1,
            }),
    {
        Self {
            status: AtomicU64::new(RUNNING),
            busy_spin_strategy: BusySpinIdleStrategy::new(),
            backoff_strategy: BackoffIdleStrategy::default(),
        }
    }

    /// Sets the status to `PARKING`, with release ordering.
    pub fn park(&self) {
        self.status.store(PARKING, Ordering::Release);
    }

    /// Sets the status to `RUNNING`, with release ordering.
    pub fn unpark(&self) {
        self.status.store(RUNNING, Ordering::Release);
    }

    /// The tick of a strategy whose status word was read as `status`.
    pub fn idle_in(&mut self, status: u64, work_count: usize) -> (action: IdleAction)
        ensures
            action == Self::action_in(old(self).backoff(), status, work_count),
            final(self).backoff() == Self::backoff_after(old(self).backoff(), status, work_count),
    {
        if status == RUNNING {
            self.busy_spin_strategy.idle(work_count)
        } else if status == PARKING {
            IdleAction::Park
        } else {
            self.backoff_strategy.idle(work_count)
        }
    }
}

impl Default for ControllableIdleStrategy {
    /// A strategy in the status `RUNNING`, with the default backoff.
    fn default() -> (strategy: Self)
        ensures
            strategy.backoff() == (Backoff {
                max_spins: 10,
                max_yields: 5,
                min_park_nanos: 1,
                max_park_nanos: 1_000_000,
                spins: 0,
                yields: 0,
                park_nanos: 1,
            }),
    {
        Self::new()
    }
}

impl IdleStrategy for ControllableIdleStrategy {
    /// Reads the status word, with acquire ordering, and does what `idle_in` does
    /// for what was read. Another thread may have set the word at any time, so the
    /// contract holds of some status, not of a given one.
    fn idle(&mut self, work_count: usize) -> (action: IdleAction)
        ensures
            exists|status: u64|
                action == Self::action_in(old(self).backoff(), status, work_count) && final(self).backoff() == #[trigger] Self::backoff_after(
                    old(self).backoff(),
                    status,
                    work_count,
                ),
    {
        let status = self.status.load(Ordering::Acquire);
        self.idle_in(status, work_count)
    }

    fn reset(&mut self)
        ensures
            final(self).backoff() == old(self).backoff().rested(),
    {
        self.busy_spin_strategy.reset();
        self.backoff_strategy.reset();
    }
}

} // verus!
