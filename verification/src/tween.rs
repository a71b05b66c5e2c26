//! Timed transitions of a value towards a target.
//!
//! All times are whole numbers of microseconds. A transition is linear: after
//! a part of its duration the value has covered the same part of the way,
//! rounded towards where it started.

use vstd::arithmetic::div_mod::{
    lemma_div_is_ordered, lemma_div_multiples_vanish, lemma_div_pos_is_pos,
};
use vstd::arithmetic::mul::{lemma_mul_inequality, lemma_mul_is_commutative, lemma_mul_nonnegative};
use vstd::prelude::*;

verus! {

/// Describes a smooth transition between values.
#[derive(Debug, Clone, Copy, PartialEq, Eq, Structural)]
pub struct Tween {
    /// The duration of the transition in microseconds.
    pub duration: u64,
}

/// The part of a distance that is covered after `elapsed` of `duration`,
/// rounded down.
pub open spec fn covered(distance: int, elapsed: int, duration: int) -> int {
    (distance * elapsed) / duration
}

/// What is covered of a distance lies between nothing and the whole of it.
pub proof fn lemma_covered_bounds(distance: int, elapsed: int, duration: int)
    requires
        0 <= distance,
        0 <= elapsed <= duration,
        0 < duration,
    ensures
        0 <= covered(distance, elapsed, duration) <= distance,
{
    lemma_mul_nonnegative(distance, elapsed);
    lemma_div_pos_is_pos(distance * elapsed, duration);
    lemma_mul_inequality(elapsed, duration, distance);
    lemma_mul_is_commutative(distance, elapsed);
    lemma_div_is_ordered(distance * elapsed, duration * distance, duration);
    lemma_div_multiples_vanish(distance, duration);
}

/// With more time elapsed, no less of a distance is covered.
pub proof fn lemma_covered_grows(distance: int, sooner: int, later: int, duration: int)
    requires
        0 <= distance,
        0 <= sooner <= later,
        0 < duration,
    ensures
        covered(distance, sooner, duration) <= covered(distance, later, duration),
{
    lemma_mul_inequality(sooner, later, distance);
    lemma_mul_is_commutative(distance, sooner);
    lemma_mul_is_commutative(distance, later);
    lemma_div_is_ordered(distance * sooner, distance * later, duration);
}

/// A transition in flight: where it started, where it leads, and how much of
/// its duration has passed.
#[derive(Debug, Clone, Copy, PartialEq, Eq, Structural)]
pub struct Transition {
    /// The value at the start of the transition.
    pub start: i32,
    /// The value at its end.
    pub target: i32,
    /// The time that has passed since the start, in microseconds.
    pub elapsed: u64,
    /// The time that the whole transition takes, in microseconds.
    pub duration: u64,
}

impl Transition {
    /// Whether the whole duration has passed.
    pub open spec fn complete(self) -> bool {
        self.elapsed >= self.duration
    }

    /// The value that the transition has reached.
    pub open spec fn value(self) -> int {
        if self.elapsed >= self.duration {
            self.target as int
        } else if self.target >= self.start {
            self.start + covered(self.target - self.start, self.elapsed as int, self.duration as int)
        } else {
            self.start - covered(self.start - self.target, self.elapsed as int, self.duration as int)
        }
    }

    /// The transition after `dt` more microseconds. Time stops at the end of
    /// the transition.
    pub open spec fn advanced(self, dt: u64) -> Transition {
        Transition {
            elapsed: if dt >= self.duration - self.elapsed {
                self.duration
            } else {
                (self.elapsed + dt) as u64
            },
            ..self
        }
    }

    /// The value of a transition lies between its start and its target.
    pub proof fn lemma_value_between(self)
        ensures
            self.start <= self.target ==> self.start <= self.value() <= self.target,
            self.start >= self.target ==> self.start >= self.value() >= self.target,
    {
        if self.elapsed < self.duration {
            if self.target >= self.start {
                lemma_covered_bounds(
                    self.target - self.start,
                    self.elapsed as int,
                    self.duration as int,
                );
            } else {
                lemma_covered_bounds(
                    self.start - self.target,
                    self.elapsed as int,
                    self.duration as int,
                );
            }
        }
    }

    /// As time passes, the value never moves away from the target.
    pub proof fn lemma_value_approaches_target(self, dt: u64)
        ensures
            self.start <= self.target ==> self.value() <= self.advanced(dt).value(),
            self.start >= self.target ==> self.value() >= self.advanced(dt).value(),
    {
        let next = self.advanced(dt);
        self.lemma_value_between();
        next.lemma_value_between();
        if self.elapsed < self.duration && next.elapsed < next.duration {
            if self.target >= self.start {
                lemma_covered_grows(
                    self.target - self.start,
                    self.elapsed as int,
                    next.elapsed as int,
                    self.duration as int,
                );
            } else {
                lemma_covered_grows(
                    self.start - self.target,
                    self.elapsed as int,
                    next.elapsed as int,
                    self.duration as int,
                );
            }
        }
    }

    /// Begins a transition from `start` to `target`.
    pub fn begin(start: i32, target: i32, tween: Tween) -> (transition: Self)
        ensures
            transition == (Transition { start, target, elapsed: 0, duration: tween.duration }),
    {
        Transition { start, target, elapsed: 0, duration: tween.duration }
    }

    /// Whether the whole duration has passed.
    pub fn is_complete(&self) -> (complete: bool)
        ensures
            complete == self.complete(),
    {
        self.elapsed >= self.duration
    }

    /// Lets `dt` microseconds pass.
    pub fn advance(&mut self, dt: u64)
        ensures
            *final(self) == old(self).advanced(dt),
    {
        if self.elapsed >= self.duration || dt >= self.duration - self.elapsed {
            self.elapsed = self.duration;
        } else {
            self.elapsed = self.elapsed + dt;
        }
    }

    /// The value that the transition has reached.
    pub fn current(&self) -> (value: i32)
        ensures
            value as int == self.value(),
    {
        proof {
            self.lemma_value_between();
        }
        if self.elapsed >= self.duration {
            self.target
        } else if self.target >= self.start {
            let distance: u64 = (self.target as i64 - self.start as i64) as u64;
            proof {
                lemma_covered_bounds(distance as int, self.elapsed as int, self.duration as int);
                lemma_mul_nonnegative(distance as int, self.elapsed as int);
                assert(distance * self.elapsed <= 0xffff_ffff * 0xffff_ffff_ffff_ffff)
                    by (nonlinear_arith)
                    requires
                        0 <= distance <= 0xffff_ffff,
                        0 <= self.elapsed <= 0xffff_ffff_ffff_ffff,
                ;
            }
            let moved: u128 = (distance as u128 * self.elapsed as u128) / (self.duration as u128);
            (self.start as i64 + moved as i64) as i32
        } else {
            let distance: u64 = (self.start as i64 - self.target as i64) as u64;
            proof {
                lemma_covered_bounds(distance as int, self.elapsed as int, self.duration as int);
                lemma_mul_nonnegative(distance as int, self.elapsed as int);
                assert(distance * self.elapsed <= 0xffff_ffff * 0xffff_ffff_ffff_ffff)
                    by (nonlinear_arith)
                    requires
                        0 <= distance <= 0xffff_ffff,
                        0 <= self.elapsed <= 0xffff_ffff_ffff_ffff,
                ;
            }
            let moved: u128 = (distance as u128 * self.elapsed as u128) / (self.duration as u128);
            (self.start as i64 - moved as i64) as i32
        }
    }
}

} // verus!
