//! Audio streams: sources of audio that play for as long as the renderer
//! lives.

use crate::frame::Frame;
use crate::id::TrackIndex;
use vstd::prelude::*;

verus! {

/// Produces a constant flow of audio data in real time.
pub trait AudioStream: Send {
    /// Produces the next [`Frame`]s of audio. This should overwrite
    /// the entire `out` buffer with new audio.
    ///
    /// `dt` is the time that the batch covers (in microseconds).
    fn process(&mut self, out: &mut Vec<Frame>, dt: u64);
}

/// An audio stream and the track that it plays on.
pub struct AudioStreamWrapper<A> {
    /// The stream.
    pub stream: A,
    /// The track that gets the output of the stream.
    pub track: TrackIndex,
}

impl<A> AudioStreamWrapper<A> {
    /// An audio stream that plays on a track.
    pub fn new(stream: A, track: TrackIndex) -> (wrapper: Self)
        ensures
            wrapper.stream == stream,
            wrapper.track == track,
    {
        AudioStreamWrapper { stream, track }
    }
}

} // verus!
