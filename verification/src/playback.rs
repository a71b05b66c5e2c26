//! The course of a sound's playback: playing, pausing, resuming and stopping,
//! each with a fade that keeps the output free of clicks.
//!
//! | from | on | to |
//! |---|---|---|
//! | `Playing` | a request to pause | `Pausing` |
//! | `Pausing` | the end of the fade | `Paused` |
//! | `Paused` | a request to resume | `WaitingToResume` |
//! | `WaitingToResume` | the time asked for | `Resuming` |
//! | `Resuming` | the end of the fade | `Playing` |
//! | `Playing`, `Pausing`, `Resuming` | a request to stop | `Stopping` |
//! | `Stopping` | the end of the fade | `Stopped` |
//!
//! Any other request leaves the playback as it is. Nothing leads out of
//! `Stopped`.

use crate::clock::Clock;
use crate::frame::UNITY;
use crate::id::ClockId;
use crate::info::Info;
use crate::sound::PlaybackState;
use crate::tween::{Transition, Tween};
use vstd::prelude::*;

verus! {

/// When something is to begin.
#[derive(Debug, Clone, Copy, PartialEq, Eq, Structural)]
pub enum StartTime {
    /// At once.
    Immediate,
    /// After a number of microseconds.
    Delayed(u64),
    /// When a clock has counted a number of ticks.
    ClockTime {
        /// The clock to go by.
        clock: ClockId,
        /// The number of ticks to wait for.
        ticks: u64,
    },
}

impl StartTime {
    /// Whether the time comes within the next `dt` microseconds, given the
    /// clocks as they are. A time on a clock that is not there never comes.
    pub open spec fn arrived(self, dt: u64, clocks: Map<u64, Clock>) -> bool {
        match self {
            StartTime::Immediate => true,
            StartTime::Delayed(rest) => rest <= dt,
            StartTime::ClockTime { clock, ticks } => clocks.contains_key(clock@) && clocks[clock@].ticks
                >= ticks,
        }
    }

    /// The time as it is seen `dt` microseconds later: a delay has become
    /// shorter by that much.
    pub open spec fn waited(self, dt: u64) -> StartTime {
        match self {
            StartTime::Delayed(rest) => StartTime::Delayed(
                if rest <= dt {
                    0
                } else {
                    (rest - dt) as u64
                },
            ),
            other => other,
        }
    }

    /// Whether the time comes within the next `dt` microseconds.
    pub fn has_arrived(&self, dt: u64, info: &Info) -> (arrived: bool)
        requires
            info.wf(),
        ensures
            arrived == self.arrived(dt, info.clocks()),
    {
        match self {
            StartTime::Immediate => true,
            StartTime::Delayed(rest) => *rest <= dt,
            StartTime::ClockTime { clock, ticks } => match info.clock_ticks(*clock) {
                Some(counted) => counted >= *ticks,
                None => false,
            },
        }
    }

    /// The time as it is seen `dt` microseconds later.
    pub fn after(self, dt: u64) -> (later: StartTime)
        ensures
            later == self.waited(dt),
    {
        match self {
            StartTime::Delayed(rest) => StartTime::Delayed(
                if rest <= dt {
                    0
                } else {
                    rest - dt
                },
            ),
            other => other,
        }
    }
}

/// One render tick as a playback sees it: the time that it covers, in
/// microseconds, and the clocks as they are.
pub type Tick = (u64, Map<u64, Clock>);

/// The time that a run of render ticks covers.
pub open spec fn time_of(ticks: Seq<Tick>) -> nat
    decreases ticks.len(),
{
    if ticks.len() == 0 {
        0
    } else {
        time_of(ticks.drop_last()) + ticks.last().0 as nat
    }
}

/// Whether a level is as close to zero as another one, on the same side.
pub open spec fn no_louder(now: i32, before: i32) -> bool {
    0 <= now <= before || before <= now <= 0
}

/// The playback of a sound: its state, and the level that its fades have
/// brought it to.
#[derive(Debug, Clone, Copy, PartialEq, Eq, Structural)]
pub struct Playback {
    /// The state of the playback.
    pub state: PlaybackState,
    /// The level of the output: [`UNITY`] at full level, zero when silent.
    pub amplitude: i32,
    /// The fade in flight, if there is one.
    pub fade: Option<Transition>,
    /// When to resume. It counts while the playback waits to resume.
    pub resume_at: StartTime,
    /// The fade to resume with.
    pub resume_tween: Tween,
}

impl Playback {
    /// The state that follows when a fade has come to its end.
    pub open spec fn settled(state: PlaybackState) -> PlaybackState {
        match state {
            PlaybackState::Pausing => PlaybackState::Paused,
            PlaybackState::Resuming => PlaybackState::Playing,
            PlaybackState::Stopping => PlaybackState::Stopped,
            other => other,
        }
    }

    /// The playback after a request to pause: a playing one begins to fade
    /// out, any other stays as it is.
    pub open spec fn paused_with(self, tween: Tween) -> Playback {
        if self.state is Playing {
            Playback {
                state: PlaybackState::Pausing,
                fade: Some(
                    Transition {
                        start: self.amplitude,
                        target: 0,
                        elapsed: 0,
                        duration: tween.duration,
                    },
                ),
                ..self
            }
        } else {
            self
        }
    }

    /// The playback after a request to resume at a given time: a paused one
    /// waits for that time, any other stays as it is.
    pub open spec fn resume_scheduled(self, when: StartTime, tween: Tween) -> Playback {
        if self.state is Paused {
            Playback {
                state: PlaybackState::WaitingToResume,
                resume_at: when,
                resume_tween: tween,
                ..self
            }
        } else {
            self
        }
    }

    /// The playback after a request to stop: one that is playing, pausing or
    /// resuming begins to fade out for good, any other stays as it is.
    pub open spec fn stopped_with(self, tween: Tween) -> Playback {
        if self.state is Playing || self.state is Pausing || self.state is Resuming {
            Playback {
                state: PlaybackState::Stopping,
                fade: Some(
                    Transition {
                        start: self.amplitude,
                        target: 0,
                        elapsed: 0,
                        duration: tween.duration,
                    },
                ),
                ..self
            }
        } else {
            self
        }
    }

    /// The playback after a render tick of `dt` microseconds.
    ///
    /// One that waits to resume begins to fade in when its time has come, and
    /// waits on else. One that advances moves its fade on; at the end of the
    /// fade, or where none is in flight, it settles in the state that the fade
    /// led to. A paused or stopped one stays as it is.
    pub open spec fn updated(self, dt: u64, clocks: Map<u64, Clock>) -> Playback {
        match self.state {
            PlaybackState::Paused | PlaybackState::Stopped => self,
            PlaybackState::WaitingToResume => if self.resume_at.arrived(dt, clocks) {
                Playback {
                    state: PlaybackState::Resuming,
                    fade: Some(
                        Transition {
                            start: self.amplitude,
                            target: UNITY,
                            elapsed: 0,
                            duration: self.resume_tween.duration,
                        },
                    ),
                    ..self
                }
            } else {
                Playback { resume_at: self.resume_at.waited(dt), ..self }
            },
            _ => match self.fade {
                None => Playback { state: Self::settled(self.state), ..self },
                Some(fade) => {
                    let next = fade.advanced(dt);
                    if next.complete() {
                        Playback {
                            state: Self::settled(self.state),
                            amplitude: fade.target,
                            fade: None,
                            ..self
                        }
                    } else {
                        Playback { amplitude: next.value() as i32, fade: Some(next), ..self }
                    }
                },
            },
        }
    }

    /// The playback after a run of render ticks, the first one first.
    pub open spec fn run(self, ticks: Seq<Tick>) -> Playback
        decreases ticks.len(),
    {
        if ticks.len() == 0 {
            self
        } else {
            self.run(ticks.drop_last()).updated(ticks.last().0, ticks.last().1)
        }
    }

    /// Where a playing sound stands at the end of a run of render ticks that
    /// follows a request to pause.
    proof fn lemma_fading_out(self, tween: Tween, ticks: Seq<Tick>)
        requires
            self.state is Playing,
        ensures
            ticks.len() == 0 ==> self.paused_with(tween).run(ticks) == self.paused_with(tween),
            ticks.len() > 0 && time_of(ticks) < tween.duration ==> self.paused_with(tween).run(ticks)
                == (Playback {
                state: PlaybackState::Pausing,
                amplitude: (Transition {
                    start: self.amplitude,
                    target: 0,
                    elapsed: time_of(ticks) as u64,
                    duration: tween.duration,
                }).value() as i32,
                fade: Some(
                    Transition {
                        start: self.amplitude,
                        target: 0,
                        elapsed: time_of(ticks) as u64,
                        duration: tween.duration,
                    },
                ),
                ..self
            }),
            ticks.len() > 0 && time_of(ticks) >= tween.duration ==> self.paused_with(tween).run(
                ticks,
            ) == (Playback { state: PlaybackState::Paused, amplitude: 0, fade: None, ..self }),
        decreases ticks.len(),
    {
        if ticks.len() > 0 {
            self.lemma_fading_out(tween, ticks.drop_last());
        }
    }

    /// A request to pause a playing sound takes effect at once and comes to
    /// its end when the time of the fade has passed: the sound is pausing
    /// from the request on, it is paused and silent at the end of the first
    /// render tick by which the ticks since the request cover the duration of
    /// the fade, and on the way no render tick leaves it louder than it was.
    pub proof fn lemma_pause_fades_out(self, tween: Tween, ticks: Seq<Tick>)
        requires
            self.state is Playing,
        ensures
            self.paused_with(tween).state is Pausing,
            ticks.len() == 0 || time_of(ticks) < tween.duration ==> self.paused_with(tween).run(
                ticks,
            ).state is Pausing,
            ticks.len() > 0 && time_of(ticks) >= tween.duration ==> self.paused_with(tween).run(
                ticks,
            ).state is Paused && self.paused_with(tween).run(ticks).amplitude == 0,
            ticks.len() > 0 ==> no_louder(
                self.paused_with(tween).run(ticks).amplitude,
                self.paused_with(tween).run(ticks.drop_last()).amplitude,
            ),
    {
        self.lemma_fading_out(tween, ticks);
        if ticks.len() > 0 {
            let front = ticks.drop_last();
            self.lemma_fading_out(tween, front);
            let begun = Transition {
                start: self.amplitude,
                target: 0,
                elapsed: 0,
                duration: tween.duration,
            };
            if front.len() == 0 {
                begun.advanced(ticks.last().0).lemma_value_between();
            } else if time_of(front) < tween.duration {
                let before = Transition { elapsed: time_of(front) as u64, ..begun };
                before.lemma_value_between();
                before.lemma_value_approaches_target(ticks.last().0);
                before.advanced(ticks.last().0).lemma_value_between();
            }
        }
    }

    /// Nothing leads out of `Stopped`: a stopped playback stays as it is
    /// whatever is asked of it and however much time passes.
    pub proof fn lemma_stopped_is_absorbing(
        self,
        tween: Tween,
        when: StartTime,
        dt: u64,
        clocks: Map<u64, Clock>,
    )
        requires
            self.state is Stopped,
        ensures
            self.paused_with(tween) == self,
            self.resume_scheduled(when, tween) == self,
            self.stopped_with(tween) == self,
            self.updated(dt, clocks) == self,
    {
    }

    /// A stopped playback stays as it is over any run of render ticks.
    pub proof fn lemma_stopped_stays_stopped(self, ticks: Seq<Tick>)
        requires
            self.state is Stopped,
        ensures
            self.run(ticks) == self,
        decreases ticks.len(),
    {
        if ticks.len() > 0 {
            self.lemma_stopped_stays_stopped(ticks.drop_last());
        }
    }

    /// A playback that plays at full level.
    pub open spec fn initial() -> Playback {
        Playback {
            state: PlaybackState::Playing,
            amplitude: UNITY,
            fade: None,
            resume_at: StartTime::Immediate,
            resume_tween: Tween { duration: 0 },
        }
    }

    /// A playback that plays at full level.
    pub fn new() -> (playback: Self)
        ensures
            playback == Playback::initial(),
    {
        Playback {
            state: PlaybackState::Playing,
            amplitude: UNITY,
            fade: None,
            resume_at: StartTime::Immediate,
            resume_tween: Tween { duration: 0 },
        }
    }

    /// The state of the playback.
    pub fn state(&self) -> (state: PlaybackState)
        ensures
            state == self.state,
    {
        self.state
    }

    /// The level of the output.
    pub fn amplitude(&self) -> (amplitude: i32)
        ensures
            amplitude == self.amplitude,
    {
        self.amplitude
    }

    /// Whether the playback has stopped, so that the sound can be unloaded.
    pub fn finished(&self) -> (finished: bool)
        ensures
            finished == (self.state is Stopped),
    {
        match self.state {
            PlaybackState::Stopped => true,
            _ => false,
        }
    }

    /// Asks a playing sound to fade out and pause.
    pub fn pause(&mut self, tween: Tween)
        ensures
            *final(self) == old(self).paused_with(tween),
    {
        match self.state {
            PlaybackState::Playing => {
                self.state = PlaybackState::Pausing;
                self.fade = Some(Transition::begin(self.amplitude, 0, tween));
            },
            _ => {},
        }
    }

    /// Asks a paused sound to fade in again at a given time.
    pub fn resume_at(&mut self, when: StartTime, tween: Tween)
        ensures
            *final(self) == old(self).resume_scheduled(when, tween),
    {
        match self.state {
            PlaybackState::Paused => {
                self.state = PlaybackState::WaitingToResume;
                self.resume_at = when;
                self.resume_tween = tween;
            },
            _ => {},
        }
    }

    /// Asks a sound to fade out and stop.
    pub fn stop(&mut self, tween: Tween)
        ensures
            *final(self) == old(self).stopped_with(tween),
    {
        match self.state {
            PlaybackState::Playing | PlaybackState::Pausing | PlaybackState::Resuming => {
                self.state = PlaybackState::Stopping;
                self.fade = Some(Transition::begin(self.amplitude, 0, tween));
            },
            _ => {},
        }
    }

    /// Lets a render tick of `dt` microseconds pass.
    pub fn update(&mut self, dt: u64, info: &Info)
        requires
            info.wf(),
        ensures
            *final(self) == old(self).updated(dt, info.clocks()),
    {
        match self.state {
            PlaybackState::Paused | PlaybackState::Stopped => {},
            PlaybackState::WaitingToResume => {
                if self.resume_at.has_arrived(dt, info) {
                    self.state = PlaybackState::Resuming;
                    self.fade = Some(Transition::begin(self.amplitude, UNITY, self.resume_tween));
                } else {
                    self.resume_at = self.resume_at.after(dt);
                }
            },
            _ => {
                let settled = match self.state {
                    PlaybackState::Pausing => PlaybackState::Paused,
                    PlaybackState::Resuming => PlaybackState::Playing,
                    PlaybackState::Stopping => PlaybackState::Stopped,
                    other => other,
                };
                match self.fade {
                    None => {
                        self.state = settled;
                    },
                    Some(mut fade) => {
                        fade.advance(dt);
                        if fade.is_complete() {
                            self.state = settled;
                            self.amplitude = fade.target;
                            self.fade = None;
                        } else {
                            self.amplitude = fade.current();
                            self.fade = Some(fade);
                        }
                    },
                }
            },
        }
    }
}

} // verus!
