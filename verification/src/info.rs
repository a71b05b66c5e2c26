//! What a sound may know of the renderer while it produces audio.

use crate::clock::Clock;
use crate::id::ClockId;
use crate::pool::Pool;
use vstd::prelude::*;

verus! {

/// A look at the renderer's clocks. It cannot change them.
pub struct Info<'a> {
    clocks: &'a Pool<Clock>,
}

impl<'a> Info<'a> {
    /// The clocks that can be looked at, each under the index of its
    /// identifier.
    pub closed spec fn clocks(self) -> Map<u64, Clock> {
        self.clocks@
    }

    /// The pool in which the clocks are looked up is in order.
    pub closed spec fn wf(self) -> bool {
        self.clocks.wf()
    }

    /// A look at the clocks of a pool.
    pub fn new(clocks: &'a Pool<Clock>) -> (info: Self)
        requires
            clocks.wf(),
        ensures
            info.wf(),
            info.clocks() == clocks@,
    {
        Info { clocks }
    }

    /// The number of ticks that a clock has counted, if there is such a
    /// clock.
    pub fn clock_ticks(&self, id: ClockId) -> (ticks: Option<u64>)
        requires
            self.wf(),
        ensures
            ticks == if self.clocks().contains_key(id@) {
                Some(self.clocks()[id@].ticks)
            } else {
                None
            },
    {
        match self.clocks.get(id.index()) {
            Some(clock) => Some(clock.ticks()),
            None => None,
        }
    }

    /// Whether a clock is running, if there is such a clock.
    pub fn clock_is_ticking(&self, id: ClockId) -> (ticking: Option<bool>)
        requires
            self.wf(),
        ensures
            ticking == if self.clocks().contains_key(id@) {
                Some(self.clocks()[id@].ticking)
            } else {
                None
            },
    {
        match self.clocks.get(id.index()) {
            Some(clock) => Some(clock.is_ticking()),
            None => None,
        }
    }
}

} // verus!
