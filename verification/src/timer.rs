//! Repeating timers, kept by the engine's own `Timer`.
//!
//! Verus does not look inside a `Timer`. What the simulation needs of one is
//! named here (the time counted in the running cycle, the length of a cycle,
//! the mode and the pause flag), and the two calls into the engine are given
//! contracts over those names.
use vstd::prelude::*;
use bevy::time::{Timer, TimerMode};
use std::time::Duration;

verus! {

#[verifier::external_type_specification]
#[verifier::external_body]
pub struct ExTimer(Timer);

/// Nanoseconds that a timer has counted since its running cycle began.
pub uninterp spec fn timer_elapsed(timer: Timer) -> nat;

/// Length of one cycle of a timer, in nanoseconds.
pub uninterp spec fn timer_period(timer: Timer) -> nat;

/// Whether a timer starts a new cycle when one ends.
pub uninterp spec fn timer_repeating(timer: Timer) -> bool;

/// Whether a timer is paused.
pub uninterp spec fn timer_paused(timer: Timer) -> bool;

/// One more than the largest number of nanoseconds that a duration can hold.
pub open spec fn duration_limit() -> nat {
    0x1_0000_0000_0000_0000 * 1_000_000_000
}

/// Whether a repeating timer that has counted `elapsed` nanoseconds of a
/// cycle of `period` nanoseconds reports a finished cycle after `delta` more.
///
/// It does so when the cycle's end is reached, with one exception: the
/// engine counts the cycles finished at once in 32 bits, and reports none
/// where that count is a multiple of 2^32.
pub open spec fn fires(elapsed: nat, period: nat, delta: nat) -> bool {
    let total = elapsed + delta;
    total >= period && (period == 0 || (total / period) % 0x1_0000_0000 != 0)
}

/// What a repeating timer has counted of its running cycle after `delta`
/// more nanoseconds: the time left over when every finished cycle is taken
/// away (the engine keeps the low 64 bits of that remainder).
pub open spec fn carried(elapsed: nat, period: nat, delta: nat) -> nat {
    let total = elapsed + delta;
    if total < period {
        total
    } else if period == 0 {
        0
    } else {
        (total % period) % 0x1_0000_0000_0000_0000
    }
}

/// Calls `bevy::time::Timer::new` with a period given in microseconds and
/// the repeating mode. As the engine's source shows, the new timer has
/// counted nothing, keeps the period it was given, and is not paused.
#[verifier::external_body]
fn repeating_timer(period_micros: u64) -> (timer: Timer)
    ensures
        timer_elapsed(timer) == 0,
        timer_period(timer) == period_micros * 1000,
        timer_repeating(timer),
        !timer_paused(timer),
{
    Timer::new(Duration::from_micros(period_micros), TimerMode::Repeating)
}

/// Calls `bevy::time::Timer::tick` with a time given in microseconds, and
/// then `just_finished` on the same timer. The contract is for a repeating
/// timer that is not paused, and leaves out the inputs on which adding the
/// durations would overflow. It says what the engine's source does: the time
/// is added; where the sum reaches the period, the count of finished cycles
/// is cut to 32 bits and the remainder is kept; the result tells whether that
/// count is above zero. Period, mode and pause flag stay as they were. On
/// the inputs admitted, none of these steps panics.
#[verifier::external_body]
fn tick_timer(timer: &mut Timer, delta_micros: u64) -> (fired: bool)
    requires
        timer_repeating(*old(timer)),
        !timer_paused(*old(timer)),
        timer_elapsed(*old(timer)) + delta_micros * 1000 < duration_limit(),
    ensures
        fired == fires(
            timer_elapsed(*old(timer)),
            timer_period(*old(timer)),
            (delta_micros * 1000) as nat,
        ),
        timer_elapsed(*final(timer)) == carried(
            timer_elapsed(*old(timer)),
            timer_period(*old(timer)),
            (delta_micros * 1000) as nat,
        ),
        timer_period(*final(timer)) == timer_period(*old(timer)),
        timer_repeating(*final(timer)),
        !timer_paused(*final(timer)),
    no_unwind
{
    timer.tick(Duration::from_micros(delta_micros)).just_finished()
}

/// A timer that runs cycle after cycle and is never paused.
#[derive(Debug)]
pub struct RepeatingTimer {
    timer: Timer,
}

impl RepeatingTimer {
    #[verifier::type_invariant]
    spec fn running(self) -> bool {
        &&& timer_repeating(self.timer)
        &&& !timer_paused(self.timer)
        &&& timer_period(self.timer) <= u64::MAX * 1000
        &&& timer_elapsed(self.timer) <= timer_period(self.timer)
    }

    /// Nanoseconds counted since the running cycle began.
    pub closed spec fn elapsed(self) -> nat {
        timer_elapsed(self.timer)
    }

    /// Length of a cycle, in nanoseconds.
    pub closed spec fn period(self) -> nat {
        timer_period(self.timer)
    }

    /// A timer with cycles of `period_micros` microseconds, at the start of
    /// its first cycle.
    pub fn new(period_micros: u64) -> (timer: RepeatingTimer)
        ensures
            timer.elapsed() == 0,
            timer.period() == period_micros * 1000,
    {
        RepeatingTimer { timer: repeating_timer(period_micros) }
    }

    /// Lets `delta_micros` microseconds pass and tells whether a cycle
    /// finished in them. However many cycles the time spans, the answer is
    /// given once.
    pub fn tick(&mut self, delta_micros: u64) -> (fired: bool)
        ensures
            fired == fires(old(self).elapsed(), old(self).period(), (delta_micros * 1000) as nat),
            final(self).elapsed() == carried(
                old(self).elapsed(),
                old(self).period(),
                (delta_micros * 1000) as nat,
            ),
            final(self).period() == old(self).period(),
    {
        proof {
            use_type_invariant(&*self);
        }
        let fired: bool = tick_timer(&mut self.timer, delta_micros);
        proof {
            lemma_carried_bound(
                old(self).elapsed(),
                old(self).period(),
                (delta_micros * 1000) as nat,
            );
        }
        fired
    }
}

/// What is carried into the next cycle is shorter than a cycle.
pub proof fn lemma_carried_bound(elapsed: nat, period: nat, delta: nat)
    ensures
        carried(elapsed, period, delta) <= period,
        period > 0 ==> carried(elapsed, period, delta) < period,
{
    let total = elapsed + delta;
    if total >= period && period > 0 {
        assert(total % period < period) by (nonlinear_arith)
            requires
                period > 0,
        ;
    }
}

/// Where the time that has passed spans fewer than 2^32 cycles, and a cycle
/// is shorter than 2^64 nanoseconds, a timer fires exactly when the end of
/// its cycle is reached, and carries the remainder over.
pub proof fn lemma_plain_cycle(elapsed: nat, period: nat, delta: nat)
    requires
        0 < period < 0x1_0000_0000_0000_0000,
        elapsed + delta < period * 0x1_0000_0000,
    ensures
        fires(elapsed, period, delta) == (elapsed + delta >= period),
        carried(elapsed, period, delta) == (elapsed + delta) % period,
{
    let total = elapsed + delta;
    assert(total / period < 0x1_0000_0000) by (nonlinear_arith)
        requires
            total < period * 0x1_0000_0000,
            0 < period,
    ;
    assert(total >= period ==> total / period >= 1) by (nonlinear_arith)
        requires
            0 < period,
    ;
    assert(total % period < period) by (nonlinear_arith)
        requires
            0 < period,
    ;
    assert(total < period ==> total % period == total) by (nonlinear_arith)
        requires
            0 < period,
            0 <= total,
    ;
}

} // verus!
