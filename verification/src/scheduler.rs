use vstd::prelude::*;
use vstd::arithmetic::div_mod::{
    lemma_fundamental_div_mod, lemma_mod_division_less_than_divisor, lemma_mod_multiples_basic,
    lemma_mod_multiples_vanish, lemma_small_mod,
};

verus! {

/// Lifecycle of the status schedule.
#[derive(Clone, Copy, PartialEq, Eq, Structural, Debug)]
pub enum Phase {
    /// Constructed; no deadline computed yet.
    Idle,
    /// A deadline aligned to the wall clock has been computed.
    Armed,
    /// Firing periodically; each firing re-arms one period later.
    Ticking,
    /// Superseded or shut down; firings of this generation are ignored.
    Cancelled,
}

/// Wall-clock-aligned periodic schedule driving the status label.
///
/// Instants are whole seconds since a fixed epoch. The generation tag
/// distinguishes configuration epochs: a reload bumps it, so a firing that
/// still carries the old tag is recognized as stale and ignored, and two
/// schedules never run side by side.
#[derive(Clone, Copy, PartialEq, Eq, Structural, Debug)]
pub struct ScheduleState {
    pub period: u64,
    pub next_deadline: u64,
    pub generation: u64,
    pub phase: Phase,
}

/// The smallest instant at or after `now` that is an exact multiple of
/// `period` — not `now + period`, so that ticks land on human-readable
/// boundaries no matter when the schedule was armed.
pub open spec fn spec_aligned_deadline(now: int, period: int) -> int
    recommends
        period > 0,
        now >= 0,
{
    if now % period == 0 {
        now
    } else {
        now + period - now % period
    }
}

/// The aligned deadline is a period boundary, lies within one period at or
/// after `now`, and is the smallest boundary not before `now`.
pub proof fn lemma_aligned_deadline(now: int, period: int)
    requires
        period > 0,
        now >= 0,
    ensures
        spec_aligned_deadline(now, period) % period == 0,
        now <= spec_aligned_deadline(now, period) < now + period,
        forall|m: int|
            m >= now && #[trigger] (m % period) == 0 ==> m >= spec_aligned_deadline(now, period),
{
    let d = spec_aligned_deadline(now, period);
    let r = now % period;
    let q = now / period;
    lemma_fundamental_div_mod(now, period);
    lemma_mod_division_less_than_divisor(now, period);
    if r == 0 {
        assert(d == now);
    } else {
        assert(d == period * (q + 1)) by (nonlinear_arith)
            requires
                now == period * q + r,
                d == now + period - r,
        ;
        lemma_mod_multiples_basic(q + 1, period);
        assert(d % period == 0);
    }
    assert forall|m: int| m >= now && #[trigger] (m % period) == 0 implies m >= d by {
        if m < d {
            // m would be a boundary strictly inside (now - r, now + period - r)
            lemma_mod_multiples_vanish(-q, m, period);
            assert(period * (-q) + m == m - period * q) by (nonlinear_arith);
            assert((m - period * q) % period == m % period);
            lemma_small_mod((m - period * q) as nat, period as nat);
        }
    }
}

/// Stepping from one period boundary to the next stays on a boundary:
/// re-arming at `deadline + period` keeps the wall-clock alignment however
/// late the firing itself was delivered.
pub proof fn lemma_realign(deadline: int, period: int)
    requires
        period > 0,
        deadline % period == 0,
    ensures
        (deadline + period) % period == 0,
{
    lemma_fundamental_div_mod(deadline, period);
    lemma_mod_multiples_basic(deadline / period + 1, period);
    assert(deadline + period == period * (deadline / period + 1)) by (nonlinear_arith)
        requires
            deadline == period * (deadline / period),
    ;
}

/// However many firings have been handled, the deadlines form the
/// arithmetic progression `d0 + n * period`, and every member lies on a
/// period boundary: alignment holds indefinitely, not just step by step.
pub proof fn lemma_deadlines_stay_aligned(d0: int, period: int, n: nat)
    requires
        period > 0,
        d0 % period == 0,
    ensures
        (d0 + n * period) % period == 0,
    decreases n,
{
    if n > 0 {
        lemma_deadlines_stay_aligned(d0, period, (n - 1) as nat);
        lemma_realign(d0 + (n - 1) * period, period);
        assert(d0 + (n - 1) * period + period == d0 + n * period) by (nonlinear_arith);
    } else {
        assert(d0 + n * period == d0) by (nonlinear_arith)
            requires
                n == 0,
        ;
    }
}

/// The aligned deadline, computed executably.
pub fn aligned_deadline(now: u64, period: u64) -> (r: u64)
    requires
        period > 0,
        now + period <= u64::MAX,
    ensures
        r == spec_aligned_deadline(now as int, period as int),
{
    let rem = now % period;
    if rem == 0 {
        now
    } else {
        now + (period - rem)
    }
}

impl ScheduleState {
    /// The schedule's structural invariant: a period of zero seconds is
    /// meaningless and never constructed.
    pub open spec fn wf(self) -> bool {
        self.period > 0
    }

    /// A fresh schedule of the first generation: idle, nothing computed.
    pub fn new(period: u64) -> (r: ScheduleState)
        requires
            period > 0,
        ensures
            r == (ScheduleState { period, next_deadline: 0, generation: 0, phase: Phase::Idle }),
            r.wf(),
    {
        ScheduleState { period, next_deadline: 0, generation: 0, phase: Phase::Idle }
    }

    /// Arm the idle schedule against the current wall clock: the first
    /// deadline is the smallest period boundary at or after `now`.
    pub fn activate(&mut self, now: u64)
        requires
            old(self).wf(),
            old(self).phase == Phase::Idle,
            now + old(self).period <= u64::MAX,
        ensures
            final(self).phase == Phase::Armed,
            final(self).next_deadline == spec_aligned_deadline(
                now as int,
                old(self).period as int,
            ),
            final(self).period == old(self).period,
            final(self).generation == old(self).generation,
            final(self).wf(),
    {
        self.next_deadline = aligned_deadline(now, self.period);
        self.phase = Phase::Armed;
    }

    /// Move from Armed to Ticking. The returned flag instructs the caller
    /// to render and push once immediately, before the first aligned
    /// deadline, so the status sink is never blank during the initial wait.
    pub fn begin_ticking(&mut self) -> (render_now: bool)
        requires
            old(self).wf(),
            old(self).phase == Phase::Armed,
        ensures
            final(self).phase == Phase::Ticking,
            final(self).period == old(self).period,
            final(self).next_deadline == old(self).next_deadline,
            final(self).generation == old(self).generation,
            final(self).wf(),
            render_now,
    {
        self.phase = Phase::Ticking;
        true
    }

    /// Handle one timer firing carrying the generation tag it was scheduled
    /// under. A live firing re-arms exactly one period after the previous
    /// deadline — alignment survives delivery latency — and instructs the
    /// caller to render. A firing that is stale (older generation) or that
    /// arrives when the schedule is not ticking changes nothing and renders
    /// nothing.
    pub fn on_tick(&mut self, tick_generation: u64) -> (render: bool)
        requires
            old(self).wf(),
            old(self).phase == Phase::Ticking && tick_generation == old(self).generation
                ==> old(self).next_deadline + old(self).period <= u64::MAX,
        ensures
            final(self).wf(),
            old(self).phase == Phase::Ticking && tick_generation == old(self).generation ==> render
                && final(self).next_deadline == old(self).next_deadline + old(self).period
                && final(self).period == old(self).period && final(self).generation == old(
                self,
            ).generation && final(self).phase == Phase::Ticking,
            !(old(self).phase == Phase::Ticking && tick_generation == old(self).generation)
                ==> !render && *final(self) == *old(self),
    {
        if matches!(self.phase, Phase::Ticking) && tick_generation == self.generation {
            self.next_deadline = self.next_deadline + self.period;
            true
        } else {
            false
        }
    }

    /// Cancel the schedule: reached on shutdown or when a reload supersedes
    /// this generation. Firings tagged with this generation are still
    /// ignored afterwards because the phase is no longer Ticking.
    pub fn cancel(&mut self)
        requires
            old(self).wf(),
        ensures
            final(self).phase == Phase::Cancelled,
            final(self).period == old(self).period,
            final(self).next_deadline == old(self).next_deadline,
            final(self).generation == old(self).generation,
            final(self).wf(),
    {
        self.phase = Phase::Cancelled;
    }

    /// Rebuild the schedule on reload: the generation advances, so any
    /// firing still tagged with the old generation is recognized as stale,
    /// and the new generation is armed against the current wall clock.
    pub fn reconfigure(&mut self, period: u64, now: u64)
        requires
            old(self).wf(),
            period > 0,
            now + period <= u64::MAX,
            old(self).generation < u64::MAX,
        ensures
            final(self).generation == old(self).generation + 1,
            final(self).period == period,
            final(self).phase == Phase::Armed,
            final(self).next_deadline == spec_aligned_deadline(now as int, period as int),
            final(self).wf(),
    {
        self.generation = self.generation + 1;
        self.period = period;
        self.next_deadline = aligned_deadline(now, period);
        self.phase = Phase::Armed;
    }
}

} // verus!
