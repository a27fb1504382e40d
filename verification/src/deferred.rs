//! Work put off until a later tick or moment.

use vstd::prelude::*;

verus! {

/// When a deferred task is due. Moments are nanoseconds on the caller's
/// monotonic clock.
#[derive(Debug, Clone, Copy, PartialEq, Eq, Structural)]
pub enum DeferredTaskKind {
    /// At the given tick, or later.
    AfterTicks(u64),
    /// At the given moment, or later.
    AfterSecs(u128),
}

/// A piece of work `F` with the time it is due.
#[derive(Debug)]
pub struct DeferredTask<F> {
    /// When the task is due.
    pub kind: DeferredTaskKind,
    /// What is to be done.
    pub f: F,
}

/// Stands for a task that was handed over.
#[derive(Debug, Clone, Copy)]
pub struct DeferredTaskGuard;

impl<F> DeferredTask<F> {
    /// A task that is due as `kind` says.
    pub fn new(kind: DeferredTaskKind, f: F) -> (r: Self)
        ensures
            r.kind == kind,
            r.f == f,
    {
        DeferredTask { kind, f }
    }

    /// Whether the task is due at tick `tick_count` and moment `now`.
    pub fn is_ready(&self, tick_count: u64, now: u128) -> (r: bool)
        ensures
            r == (match self.kind {
                DeferredTaskKind::AfterTicks(target) => tick_count >= target,
                DeferredTaskKind::AfterSecs(wakeup) => now >= wakeup,
            }),
    {
        match self.kind {
            DeferredTaskKind::AfterTicks(target) => tick_count >= target,
            DeferredTaskKind::AfterSecs(wakeup) => now >= wakeup,
        }
    }

    /// Law: a task that is due stays due as ticks and time go on.
    pub proof fn lemma_ready_stays_ready(
        kind: DeferredTaskKind,
        tick: u64,
        later_tick: u64,
        now: u128,
        later: u128,
    )
        requires
            tick <= later_tick,
            now <= later,
            match kind {
                DeferredTaskKind::AfterTicks(target) => tick >= target,
                DeferredTaskKind::AfterSecs(wakeup) => now >= wakeup,
            },
        ensures
            match kind {
                DeferredTaskKind::AfterTicks(target) => later_tick >= target,
                DeferredTaskKind::AfterSecs(wakeup) => later >= wakeup,
            },
    {
    }
}

} // verus!
