//! Sources of audio, the part of a sound that is played, and the playback
//! state of a sound.

use crate::frame::Frame;
use crate::info::Info;
use std::ops::{Range, RangeFrom, RangeFull, RangeTo};
use vstd::prelude::*;
use vstd::std_specs::convert::IntoSpec;

verus! {

/// `std::ops::RangeFrom`, a range that is bounded below only. Its one field,
/// `start`, is public.
#[verifier::external_type_specification]
#[verifier::reject_recursive_types(Idx)]
pub struct ExRangeFrom<Idx>(RangeFrom<Idx>);

/// `std::ops::RangeTo`, a range that is bounded above only. Its one field,
/// `end`, is public.
#[verifier::external_type_specification]
#[verifier::reject_recursive_types(Idx)]
pub struct ExRangeTo<Idx>(RangeTo<Idx>);

/// `std::ops::RangeFull`, the unbounded range. It has no fields.
#[verifier::external_type_specification]
pub struct ExRangeFull(RangeFull);

/// The number of microseconds in a second.
pub const MICROS_PER_SECOND: u64 = 1_000_000;

/// The playback state of a sound.
#[derive(Debug, Clone, Copy, PartialEq, Eq, Hash, Structural)]
pub enum PlaybackState {
    /// The sound is playing normally.
    Playing,
    /// The sound is fading out, and when the fade-out
    /// is finished, playback will pause.
    Pausing,
    /// Playback is paused.
    Paused,
    /// The sound is paused, but is scheduled to resume in the future.
    WaitingToResume,
    /// The sound is fading back in after being previously paused.
    Resuming,
    /// The sound is fading out, and when the fade-out
    /// is finished, playback will stop.
    Stopping,
    /// The sound has stopped and can no longer be resumed.
    Stopped,
}

impl PlaybackState {
    /// The states in which a sound advances and outputs audio.
    pub open spec fn advancing(self) -> bool {
        self is Playing || self is Pausing || self is Resuming || self is Stopping
    }

    /// Whether the sound is advancing and outputting audio given
    /// its current playback state.
    pub fn is_advancing(self) -> (advancing: bool)
        ensures
            advancing == self.advancing(),
            !advancing == (self is Paused || self is WaitingToResume || self is Stopped),
    {
        match self {
            PlaybackState::Playing => true,
            PlaybackState::Pausing => true,
            PlaybackState::Paused => false,
            PlaybackState::WaitingToResume => false,
            PlaybackState::Resuming => true,
            PlaybackState::Stopping => true,
            PlaybackState::Stopped => false,
        }
    }
}

/// A point in a sound, counted from its beginning.
#[derive(Debug, Clone, Copy, PartialEq, Eq, Structural)]
pub enum PlaybackPosition {
    /// A number of samples.
    Samples(usize),
    /// A time in microseconds.
    Micros(u64),
}

impl PlaybackPosition {
    /// The sample that this position falls on at a given sample rate, before
    /// it is limited to what `usize` holds. A time is rounded down to a whole
    /// sample.
    pub open spec fn sample_index(self, sample_rate: u32) -> nat {
        match self {
            PlaybackPosition::Samples(samples) => samples as nat,
            PlaybackPosition::Micros(micros) => ((micros as nat * sample_rate as nat)
                / MICROS_PER_SECOND as nat) as nat,
        }
    }

    /// The sample that this position falls on at a given sample rate
    /// (in samples per second), or `usize::MAX` where that is too large
    /// a number.
    pub fn into_samples(self, sample_rate: u32) -> (samples: usize)
        ensures
            samples as nat == if self.sample_index(sample_rate) <= usize::MAX as nat {
                self.sample_index(sample_rate)
            } else {
                usize::MAX as nat
            },
    {
        match self {
            PlaybackPosition::Samples(samples) => samples,
            PlaybackPosition::Micros(micros) => {
                assert(micros as nat * sample_rate as nat <= 0xffff_ffff_ffff_ffff
                    * 0xffff_ffff) by (nonlinear_arith)
                    requires
                        micros <= 0xffff_ffff_ffff_ffff,
                        sample_rate <= 0xffff_ffff,
                ;
                let scaled: u128 = (micros as u128 * sample_rate as u128) / (
                MICROS_PER_SECOND as u128);
                if scaled > usize::MAX as u128 {
                    usize::MAX
                } else {
                    scaled as usize
                }
            },
        }
    }
}

impl Default for PlaybackPosition {
    fn default() -> (position: Self)
        ensures
            position == PlaybackPosition::Samples(0),
    {
        PlaybackPosition::Samples(0)
    }
}

impl From<usize> for PlaybackPosition {
    fn from(samples: usize) -> (position: Self) {
        PlaybackPosition::Samples(samples)
    }
}

impl vstd::std_specs::convert::FromSpecImpl<usize> for PlaybackPosition {
    open spec fn obeys_from_spec() -> bool {
        true
    }

    open spec fn from_spec(samples: usize) -> Self {
        PlaybackPosition::Samples(samples)
    }
}

/// The ending time of a region of audio.
#[derive(Debug, Clone, Copy, PartialEq, Eq, Structural)]
pub enum EndPosition {
    /// The end of the audio data.
    EndOfAudio,
    /// A user-defined position.
    Custom(PlaybackPosition),
}

impl Default for EndPosition {
    fn default() -> (end: Self)
        ensures
            end == EndPosition::EndOfAudio,
    {
        EndPosition::EndOfAudio
    }
}

/// A portion of audio.
#[derive(Debug, Clone, Copy, PartialEq, Eq, Structural)]
pub struct Region {
    /// The starting position of the region.
    pub start: PlaybackPosition,
    /// The (exclusive) ending position of the region.
    pub end: EndPosition,
}

impl Region {
    /// The first sample of the region within a sound of `num_frames` samples,
    /// and the sample just behind its last one.
    ///
    /// The end is the sound's end where the region names none or one that
    /// lies behind it. The start is the end where it would lie behind it.
    pub open spec fn resolved(self, sample_rate: u32, num_frames: usize) -> (nat, nat) {
        let end = match self.end {
            EndPosition::EndOfAudio => num_frames as nat,
            EndPosition::Custom(position) => if position.sample_index(sample_rate)
                <= num_frames as nat {
                position.sample_index(sample_rate)
            } else {
                num_frames as nat
            },
        };
        let start = if self.start.sample_index(sample_rate) <= end {
            self.start.sample_index(sample_rate)
        } else {
            end
        };
        (start, end)
    }

    /// Resolves the region against a sound of `num_frames` samples at
    /// `sample_rate` samples per second. The result is a half-open interval of
    /// samples that lies within the sound, and its start is never behind its
    /// end.
    pub fn resolve(&self, sample_rate: u32, num_frames: usize) -> (bounds: (usize, usize))
        ensures
            bounds.0 as nat == self.resolved(sample_rate, num_frames).0,
            bounds.1 as nat == self.resolved(sample_rate, num_frames).1,
            bounds.0 <= bounds.1 <= num_frames,
    {
        let end = match self.end {
            EndPosition::EndOfAudio => num_frames,
            EndPosition::Custom(position) => {
                let samples = position.into_samples(sample_rate);
                if samples <= num_frames {
                    samples
                } else {
                    num_frames
                }
            },
        };
        let first = self.start.into_samples(sample_rate);
        let start = if first <= end {
            first
        } else {
            end
        };
        (start, end)
    }
}

impl Default for Region {
    fn default() -> (region: Self)
        ensures
            region.start == PlaybackPosition::Samples(0),
            region.end == EndPosition::EndOfAudio,
    {
        Region { start: PlaybackPosition::Samples(0), end: EndPosition::EndOfAudio }
    }
}

impl<T: Into<PlaybackPosition>> From<RangeFrom<T>> for Region {
    fn from(range: RangeFrom<T>) -> (region: Self) {
        Region { start: range.start.into(), end: EndPosition::EndOfAudio }
    }
}

impl<T: Into<PlaybackPosition>> vstd::std_specs::convert::FromSpecImpl<RangeFrom<T>> for Region {
    open spec fn obeys_from_spec() -> bool {
        T::obeys_into_spec()
    }

    open spec fn from_spec(range: RangeFrom<T>) -> Self {
        Region { start: range.start.into_spec(), end: EndPosition::EndOfAudio }
    }
}

impl<T: Into<PlaybackPosition>> From<Range<T>> for Region {
    fn from(range: Range<T>) -> (region: Self) {
        Region { start: range.start.into(), end: EndPosition::Custom(range.end.into()) }
    }
}

impl<T: Into<PlaybackPosition>> vstd::std_specs::convert::FromSpecImpl<Range<T>> for Region {
    open spec fn obeys_from_spec() -> bool {
        T::obeys_into_spec()
    }

    open spec fn from_spec(range: Range<T>) -> Self {
        Region { start: range.start.into_spec(), end: EndPosition::Custom(range.end.into_spec()) }
    }
}

impl<T: Into<PlaybackPosition>> From<RangeTo<T>> for Region {
    fn from(range: RangeTo<T>) -> (region: Self) {
        Region { start: PlaybackPosition::Samples(0), end: EndPosition::Custom(range.end.into()) }
    }
}

impl<T: Into<PlaybackPosition>> vstd::std_specs::convert::FromSpecImpl<RangeTo<T>> for Region {
    open spec fn obeys_from_spec() -> bool {
        T::obeys_into_spec()
    }

    open spec fn from_spec(range: RangeTo<T>) -> Self {
        Region {
            start: PlaybackPosition::Samples(0),
            end: EndPosition::Custom(range.end.into_spec()),
        }
    }
}

impl From<RangeFull> for Region {
    fn from(range: RangeFull) -> (region: Self) {
        Region { start: PlaybackPosition::Samples(0), end: EndPosition::EndOfAudio }
    }
}

impl vstd::std_specs::convert::FromSpecImpl<RangeFull> for Region {
    open spec fn obeys_from_spec() -> bool {
        true
    }

    open spec fn from_spec(range: RangeFull) -> Self {
        Region { start: PlaybackPosition::Samples(0), end: EndPosition::EndOfAudio }
    }
}

/// A trait for types that can be converted into an `Option<Region>`.
pub trait IntoOptionalRegion {
    /// Converts the type into an `Option<Region>`.
    #[must_use]
    fn into_optional_region(self) -> Option<Region>;
}

impl<T: Into<Region>> IntoOptionalRegion for T {
    fn into_optional_region(self) -> (region: Option<Region>)
        ensures
            T::obeys_into_spec() ==> region == Some(self.into_spec()),
    {
        Some(self.into())
    }
}

impl IntoOptionalRegion for Option<Region> {
    fn into_optional_region(self) -> (region: Option<Region>)
        ensures
            region == self,
    {
        self
    }
}

/// The first frame of a batch, or silence where the batch is empty.
pub open spec fn first_frame(batch: Seq<Frame>) -> Frame {
    if batch.len() > 0 {
        batch[0]
    } else {
        Frame::zero()
    }
}

/// A source of audio that is loaded, but not yet playing.
pub trait SoundData {
    /// Errors that can occur when starting the sound.
    type Error;

    /// The type that can be used to control the sound once
    /// it has started.
    type Handle;

    /// The type of the live, playing sound.
    type Sound: Sound;

    /// Converts the loaded sound into a live, playing sound
    /// and a handle to control it.
    ///
    /// The sound goes to the renderer for playback; the handle stays with
    /// the caller.
    fn into_sound(self) -> Result<(Self::Sound, Self::Handle), Self::Error>;
}

/// An actively playing sound.
///
/// For performance reasons, the methods of this trait should not allocate
/// or deallocate memory.
pub trait Sound: Send {
    /// Called whenever a new batch of audio samples is requested by the backend.
    ///
    /// This is a good place to put code that needs to run fairly frequently,
    /// but not for every single audio sample.
    fn on_start_processing(&mut self) {
    }

    /// Produces the next [`Frame`]s of audio. This should overwrite
    /// the entire `out` buffer with new audio.
    ///
    /// `dt` is the time that the batch covers (in microseconds).
    fn process(&mut self, out: &mut Vec<Frame>, dt: u64, info: &Info)
        requires
            info.wf(),
    ;

    /// Processes a single [`Frame`]. Mostly useful for testing.
    ///
    /// `dt` is the time elapsed since the previous frame (in microseconds).
    /// Where the sound leaves nothing in the buffer, the frame is silence.
    ///
    /// The sound is what one call of `process` has made of it, on a buffer
    /// of one frame of silence, and the result is the first frame that this
    /// call has left in the buffer.
    fn process_one(&mut self, dt: u64, info: &Info) -> (frame: Frame) where Self: Sized
        requires
            info.wf(),
        ensures
            exists|r: &mut Self, o: &mut Vec<Frame>|
                mut_ref_current(r) == *old(self) && mut_ref_future(r) == *final(self)
                    && mut_ref_current(o)@ == seq![Frame::zero()] && frame == first_frame(
                    mut_ref_future(o)@,
                ) && #[trigger] call_ensures(Self::process, (r, o, dt, info), ()),
    {
        let mut out: Vec<Frame> = Vec::new();
        out.push(Frame::silence());
        self.process(&mut out, dt, info);
        if out.len() > 0 {
            out[0]
        } else {
            Frame::silence()
        }
    }

    /// Returns `true` if the sound is finished and can be unloaded.
    ///
    /// For finite sounds, this will typically be when playback has reached the
    /// end of the sound. For infinite sounds, this will typically be when the
    /// handle for the sound is dropped.
    #[must_use]
    fn finished(&self) -> bool;
}

/// What is known of a sound apart from its audio.
#[derive(Debug, Clone, Copy, PartialEq, Eq, Structural)]
pub struct Metadata {
    /// The duration that the sound is meant to have when it is looped, in
    /// microseconds, where that differs from the length of its audio.
    pub semantic_duration: Option<u64>,
}

} // verus!
