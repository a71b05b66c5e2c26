//! Parameters: numbers that can be moved smoothly and that other values can
//! follow.

use crate::pool::Advance;
use crate::tween::{Transition, Tween};
use vstd::prelude::*;

verus! {

/// A number that moves towards a target over time.
#[derive(Debug, Clone, Copy, PartialEq, Eq, Structural)]
pub struct Parameter {
    /// The current value.
    pub value: i32,
    /// The transition in flight, if there is one.
    pub transition: Option<Transition>,
    /// Whether the parameter is held where it is.
    pub paused: bool,
}

impl Parameter {
    /// The parameter after `dt` more microseconds.
    ///
    /// A paused parameter, and one that no transition moves, stays as it is.
    /// Else the transition moves on. Where its time is up, the value is the
    /// target and the transition is gone.
    pub open spec fn updated(self, dt: u64) -> Parameter {
        if self.paused {
            self
        } else {
            match self.transition {
                None => self,
                Some(transition) => {
                    let next = transition.advanced(dt);
                    if next.complete() {
                        Parameter { value: transition.target, transition: None, paused: false }
                    } else {
                        Parameter {
                            value: next.value() as i32,
                            transition: Some(next),
                            paused: false,
                        }
                    }
                },
            }
        }
    }

    /// Whether a transition comes to its end within the next `dt` microseconds.
    pub open spec fn finishes_within(self, dt: u64) -> bool {
        !self.paused && self.transition is Some && self.transition.unwrap().advanced(dt).complete()
    }

    /// A parameter that rests at `value`.
    pub fn new(value: i32) -> (parameter: Self)
        ensures
            parameter == (Parameter { value, transition: None, paused: false }),
    {
        Parameter { value, transition: None, paused: false }
    }

    /// The current value of the parameter.
    pub fn value(&self) -> (value: i32)
        ensures
            value == self.value,
    {
        self.value
    }

    /// Whether a transition is in flight.
    pub fn is_tweening(&self) -> (tweening: bool)
        ensures
            tweening == self.transition is Some,
    {
        self.transition.is_some()
    }

    /// Begins a transition from the current value towards `target`. A
    /// transition that was in flight is given up for the new one.
    pub fn set(&mut self, target: i32, tween: Tween)
        ensures
            *final(self) == (Parameter {
                transition: Some(
                    Transition { start: old(self).value, target, elapsed: 0, duration: tween.duration },
                ),
                ..*old(self)
            }),
    {
        self.transition = Some(Transition::begin(self.value, target, tween));
    }

    /// Holds the parameter where it is. A transition in flight keeps what it
    /// has covered.
    pub fn pause(&mut self)
        ensures
            *final(self) == (Parameter { paused: true, ..*old(self) }),
    {
        self.paused = true;
    }

    /// Lets a held parameter move again.
    pub fn resume(&mut self)
        ensures
            *final(self) == (Parameter { paused: false, ..*old(self) }),
    {
        self.paused = false;
    }

    /// Lets `dt` microseconds pass. Returns whether a transition came to its
    /// end in that time.
    pub fn update(&mut self, dt: u64) -> (finished: bool)
        ensures
            *final(self) == old(self).updated(dt),
            finished == old(self).finishes_within(dt),
    {
        if self.paused {
            return false;
        }
        match self.transition {
            None => false,
            Some(mut transition) => {
                transition.advance(dt);
                if transition.is_complete() {
                    self.value = transition.target;
                    self.transition = None;
                    true
                } else {
                    self.value = transition.current();
                    self.transition = Some(transition);
                    false
                }
            },
        }
    }
}

impl Advance<()> for Parameter {
    open spec fn usable(context: &()) -> bool {
        true
    }

    open spec fn advanced(self, dt: u64, context: &()) -> Parameter {
        self.updated(dt)
    }

    fn advance(&mut self, dt: u64, context: &()) {
        self.update(dt);
    }
}

} // verus!
