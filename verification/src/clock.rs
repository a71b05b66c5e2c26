//! Clocks: counters of ticks that sounds and other resources can be timed by.
//!
//! A clock that is running gathers the time that passes. Whenever it has
//! gathered a whole interval, it counts one tick and keeps the rest.

use crate::parameter::Parameter;
use crate::pool::{Advance, Pool};
use crate::value::Value;
use vstd::arithmetic::div_mod::{lemma_fundamental_div_mod, lemma_fundamental_div_mod_converse};
use vstd::arithmetic::mul::{lemma_mul_is_commutative, lemma_mul_is_distributive_add};
use vstd::prelude::*;

verus! {

/// A counter of ticks.
#[derive(Debug, Clone, Copy, PartialEq, Eq, Structural)]
pub struct Clock {
    /// The time between two ticks, in microseconds.
    pub interval: Value,
    /// Whether the clock is running.
    pub ticking: bool,
    /// The number of ticks counted since the clock was started.
    pub ticks: u64,
    /// The time gathered since the last tick, in microseconds.
    pub fraction: u64,
}

/// A number of ticks as a `u64`, which holds no more than `u64::MAX`.
pub open spec fn limited(ticks: int) -> u64 {
    if ticks > u64::MAX {
        u64::MAX
    } else {
        ticks as u64
    }
}

impl Clock {
    /// The clock after `dt` more microseconds, where its interval is
    /// `interval` microseconds at the moment.
    ///
    /// A clock that is not running stays as it is, and so does one whose
    /// interval is not positive. Else the time is added to what was gathered,
    /// every whole interval in that becomes a tick, and the rest is kept. The
    /// count of ticks stops at `u64::MAX`.
    pub open spec fn updated(self, dt: u64, interval: i32) -> Clock {
        if !self.ticking || interval <= 0 {
            self
        } else {
            Clock {
                ticks: limited(self.ticks + (self.fraction + dt) / (interval as int)),
                fraction: ((self.fraction + dt) % (interval as int)) as u64,
                ..self
            }
        }
    }

    /// The clock after `count` updates of `dt` microseconds each.
    pub open spec fn after_updates(self, dt: u64, interval: i32, count: nat) -> Clock
        decreases count,
    {
        if count == 0 {
            self
        } else {
            self.after_updates(dt, interval, (count - 1) as nat).updated(dt, interval)
        }
    }

    /// A clock counts the whole intervals in the time that has passed: a
    /// clock that starts at zero and is updated `count` times by `dt`
    /// microseconds, at an interval of `interval` microseconds, has counted
    /// `count * dt / interval` ticks, rounded down, and has gathered what is
    /// left of that division.
    pub proof fn lemma_ticks_follow_time(self, dt: u64, interval: i32, count: nat)
        requires
            self.ticking,
            self.ticks == 0,
            self.fraction == 0,
            interval > 0,
        ensures
            self.after_updates(dt, interval, count).ticking,
            self.after_updates(dt, interval, count).interval == self.interval,
            self.after_updates(dt, interval, count).ticks == limited(
                (count * dt) / (interval as int),
            ),
            self.after_updates(dt, interval, count).fraction == (count * dt) % (interval as int),
        decreases count,
    {
        let step = interval as int;
        if count == 0 {
            assert(count * dt == 0) by (nonlinear_arith)
                requires
                    count == 0,
            ;
            assert(0int / step == 0 && 0int % step == 0) by (nonlinear_arith)
                requires
                    step > 0,
            ;
        } else {
            let before = self.after_updates(dt, interval, (count - 1) as nat);
            self.lemma_ticks_follow_time(dt, interval, (count - 1) as nat);
            let past = (count - 1) * dt;
            let gathered = before.fraction + dt;
            assert(past + dt == count * dt) by (nonlinear_arith)
                requires
                    past == (count - 1) * dt,
            ;
            assert(0 <= past) by (nonlinear_arith)
                requires
                    past == (count - 1) * dt,
                    count >= 1,
                    dt >= 0,
            ;
            lemma_fundamental_div_mod(past, step);
            lemma_fundamental_div_mod(gathered, step);
            lemma_mul_is_distributive_add(step, past / step, gathered / step);
            lemma_mul_is_commutative(step, past / step + gathered / step);
            lemma_fundamental_div_mod_converse(
                past + dt,
                step,
                past / step + gathered / step,
                gathered % step,
            );
            assert(0 <= past / step) by (nonlinear_arith)
                requires
                    0 <= past,
                    step > 0,
            ;
            assert(0 <= gathered / step) by (nonlinear_arith)
                requires
                    0 <= gathered,
                    step > 0,
            ;
        }
    }

    /// A clock with an interval, at zero and not running.
    pub fn new(interval: Value) -> (clock: Self)
        ensures
            clock == (Clock { interval, ticking: false, ticks: 0, fraction: 0 }),
    {
        Clock { interval, ticking: false, ticks: 0, fraction: 0 }
    }

    /// The number of ticks counted since the clock was started.
    pub fn ticks(&self) -> (ticks: u64)
        ensures
            ticks == self.ticks,
    {
        self.ticks
    }

    /// Whether the clock is running.
    pub fn is_ticking(&self) -> (ticking: bool)
        ensures
            ticking == self.ticking,
    {
        self.ticking
    }

    /// Sets the time between two ticks.
    pub fn set_interval(&mut self, interval: Value)
        ensures
            *final(self) == (Clock { interval, ..*old(self) }),
    {
        self.interval = interval;
    }

    /// Starts the clock, or lets it run on after a pause.
    pub fn start(&mut self)
        ensures
            *final(self) == (Clock { ticking: true, ..*old(self) }),
    {
        self.ticking = true;
    }

    /// Halts the clock. It keeps its ticks and the time it has gathered.
    pub fn pause(&mut self)
        ensures
            *final(self) == (Clock { ticking: false, ..*old(self) }),
    {
        self.ticking = false;
    }

    /// Halts the clock and sets it back to zero.
    pub fn stop(&mut self)
        ensures
            *final(self) == (Clock { ticking: false, ticks: 0, fraction: 0, ..*old(self) }),
    {
        self.ticking = false;
        self.ticks = 0;
        self.fraction = 0;
    }

    /// Lets `dt` microseconds pass, at an interval of `interval` microseconds.
    /// Returns the number of ticks that the clock counted in that time.
    pub fn update(&mut self, dt: u64, interval: i32) -> (counted: u64)
        ensures
            *final(self) == old(self).updated(dt, interval),
            counted == final(self).ticks - old(self).ticks,
    {
        if !self.ticking || interval <= 0 {
            return 0;
        }
        let gathered: u128 = self.fraction as u128 + dt as u128;
        let whole: u128 = gathered / (interval as u128);
        let rest: u128 = gathered % (interval as u128);
        proof {
            assert(0 <= gathered as int / interval as int <= gathered) by (nonlinear_arith)
                requires
                    0 <= gathered,
                    interval > 0,
            ;
        }
        let left: u64 = u64::MAX - self.ticks;
        let counted: u64 = if whole > left as u128 {
            left
        } else {
            whole as u64
        };
        self.ticks = self.ticks + counted;
        self.fraction = rest as u64;
        counted
    }
}

impl Advance<Pool<Parameter>> for Clock {
    open spec fn usable(context: &Pool<Parameter>) -> bool {
        context.wf()
    }

    /// The clock after `dt` more microseconds, at the interval that the
    /// parameters give it.
    open spec fn advanced(self, dt: u64, context: &Pool<Parameter>) -> Clock {
        self.updated(dt, self.interval.resolved(context@))
    }

    fn advance(&mut self, dt: u64, context: &Pool<Parameter>) {
        let interval = self.interval.resolve(context);
        self.update(dt, interval);
    }
}

} // verus!
