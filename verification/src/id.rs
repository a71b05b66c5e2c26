//! Identifiers of the resources that the renderer owns.
//!
//! Every identifier carries an index that an [`IdAllocator`] handed out. The
//! allocator counts upwards and never goes back, so an index names one
//! resource for as long as the allocator lives, also after the resource is gone.

use crate::sound::Metadata;
use vstd::prelude::*;

verus! {

/// The kinds of resources that are addressed by identifiers.
#[derive(Debug, Clone, Copy, PartialEq, Eq, Hash, Structural)]
pub enum IdKind {
    /// A playing sound.
    Sound,
    /// A parameter.
    Parameter,
    /// A mixer sub-track.
    SubTrack,
    /// A clock.
    Clock,
    /// An audio stream.
    AudioStream,
}

/// Hands out the indices of identifiers: one counter for each kind of
/// resource, each starting at zero.
#[derive(Debug)]
pub struct IdAllocator {
    sounds: u64,
    parameters: u64,
    sub_tracks: u64,
    clocks: u64,
    audio_streams: u64,
}

impl IdAllocator {
    /// The number of indices of a kind that were handed out so far. It is also
    /// the next index of that kind.
    pub closed spec fn issued(self, kind: IdKind) -> nat {
        match kind {
            IdKind::Sound => self.sounds as nat,
            IdKind::Parameter => self.parameters as nat,
            IdKind::SubTrack => self.sub_tracks as nat,
            IdKind::Clock => self.clocks as nat,
            IdKind::AudioStream => self.audio_streams as nat,
        }
    }

    /// The allocator after it has handed out one index of a kind.
    pub closed spec fn issue(self, kind: IdKind) -> IdAllocator {
        match kind {
            IdKind::Sound => IdAllocator { sounds: (self.sounds + 1) as u64, ..self },
            IdKind::Parameter => IdAllocator { parameters: (self.parameters + 1) as u64, ..self },
            IdKind::SubTrack => IdAllocator { sub_tracks: (self.sub_tracks + 1) as u64, ..self },
            IdKind::Clock => IdAllocator { clocks: (self.clocks + 1) as u64, ..self },
            IdKind::AudioStream => IdAllocator {
                audio_streams: (self.audio_streams + 1) as u64,
                ..self
            },
        }
    }

    /// The allocator after it has served a run of requests, the first one first.
    pub open spec fn after(self, requests: Seq<IdKind>) -> IdAllocator
        decreases requests.len(),
    {
        if requests.len() == 0 {
            self
        } else {
            self.after(requests.drop_last()).issue(requests.last())
        }
    }

    /// Whether every request of a run finds an index left to hand out.
    pub open spec fn can_serve(self, requests: Seq<IdKind>) -> bool {
        forall|k: int|
            0 <= k < requests.len() ==> (#[trigger] self.after(requests.take(k))).issued(
                requests[k],
            ) < u64::MAX
    }

    /// An allocator that has handed out nothing yet.
    pub fn new() -> (allocator: Self)
        ensures
            forall|kind: IdKind| allocator.issued(kind) == 0,
    {
        IdAllocator { sounds: 0, parameters: 0, sub_tracks: 0, clocks: 0, audio_streams: 0 }
    }

    /// The number of indices of a kind that were handed out so far.
    pub fn issued_count(&self, kind: IdKind) -> (count: u64)
        ensures
            count as nat == self.issued(kind),
    {
        match kind {
            IdKind::Sound => self.sounds,
            IdKind::Parameter => self.parameters,
            IdKind::SubTrack => self.sub_tracks,
            IdKind::Clock => self.clocks,
            IdKind::AudioStream => self.audio_streams,
        }
    }

    /// Hands out the next index of a kind.
    ///
    /// The index is the number of indices of that kind handed out before, so
    /// it is larger than each of them. The counters of the other kinds stay as
    /// they are.
    pub fn next(&mut self, kind: IdKind) -> (index: u64)
        requires
            old(self).issued(kind) < u64::MAX,
        ensures
            index as nat == old(self).issued(kind),
            *final(self) == old(self).issue(kind),
            final(self).issued(kind) == old(self).issued(kind) + 1,
            forall|other: IdKind| other != kind ==> final(self).issued(other) == old(self).issued(other),
    {
        match kind {
            IdKind::Sound => {
                let index = self.sounds;
                self.sounds = index + 1;
                index
            },
            IdKind::Parameter => {
                let index = self.parameters;
                self.parameters = index + 1;
                index
            },
            IdKind::SubTrack => {
                let index = self.sub_tracks;
                self.sub_tracks = index + 1;
                index
            },
            IdKind::Clock => {
                let index = self.clocks;
                self.clocks = index + 1;
                index
            },
            IdKind::AudioStream => {
                let index = self.audio_streams;
                self.audio_streams = index + 1;
                index
            },
        }
    }

    /// Handing out an index of a kind raises the count of that kind by one
    /// and leaves the other counts as they are.
    pub proof fn lemma_issue(self, kind: IdKind)
        requires
            self.issued(kind) < u64::MAX,
        ensures
            self.issue(kind).issued(kind) == self.issued(kind) + 1,
            forall|other: IdKind| other != kind ==> self.issue(kind).issued(other) == self.issued(other),
    {
    }

    /// Serving more requests never lowers a counter.
    proof fn lemma_counts_grow(self, requests: Seq<IdKind>, shorter: int, kind: IdKind)
        requires
            0 <= shorter <= requests.len(),
            self.can_serve(requests),
        ensures
            self.after(requests.take(shorter)).issued(kind) <= self.after(requests).issued(kind),
        decreases requests.len() - shorter,
    {
        if shorter == requests.len() {
            assert(requests.take(shorter) =~= requests);
        } else {
            let front = requests.drop_last();
            assert forall|k: int| 0 <= k < front.len() implies (#[trigger] self.after(
                front.take(k),
            )).issued(front[k]) < u64::MAX by {
                assert(front.take(k) =~= requests.take(k));
            }
            assert(front.take(shorter) =~= requests.take(shorter));
            self.lemma_counts_grow(front, shorter, kind);
            assert(front =~= requests.take(requests.len() - 1));
        }
    }

    /// An index is never handed out twice: of two requests for the same kind
    /// of resource, the later one gets the larger index.
    pub proof fn lemma_ids_never_reissued(self, requests: Seq<IdKind>, earlier: int, later: int)
        requires
            0 <= earlier < later < requests.len(),
            requests[earlier] == requests[later],
            self.can_serve(requests),
        ensures
            self.after(requests.take(earlier)).issued(requests[earlier]) < self.after(
                requests.take(later),
            ).issued(requests[later]),
    {
        let kind = requests[earlier];
        let upto = requests.take(later);
        assert forall|k: int| 0 <= k < upto.len() implies (#[trigger] self.after(
            upto.take(k),
        )).issued(upto[k]) < u64::MAX by {
            assert(upto.take(k) =~= requests.take(k));
        }
        assert(upto.take(earlier + 1) =~= requests.take(earlier + 1));
        self.lemma_counts_grow(upto, earlier + 1, kind);
        assert(requests.take(earlier + 1).drop_last() =~= requests.take(earlier));
        assert(self.after(requests.take(earlier)).issued(kind) < u64::MAX);
    }
}

/// A unique identifier for a parameter.
#[derive(Debug, Clone, Copy, PartialEq, Eq, Hash, Structural)]
pub struct ParameterId {
    index: u64,
}

impl View for ParameterId {
    type V = u64;

    closed spec fn view(&self) -> u64 {
        self.index
    }
}

impl ParameterId {
    /// Makes the identifier of a new parameter.
    pub fn new(ids: &mut IdAllocator) -> (id: Self)
        requires
            old(ids).issued(IdKind::Parameter) < u64::MAX,
        ensures
            id@ as nat == old(ids).issued(IdKind::Parameter),
            *final(ids) == old(ids).issue(IdKind::Parameter),
            final(ids).issued(IdKind::Parameter) == old(ids).issued(IdKind::Parameter) + 1,
            forall|other: IdKind|
                other != IdKind::Parameter ==> final(ids).issued(other) == old(ids).issued(other),
    {
        ParameterId { index: ids.next(IdKind::Parameter) }
    }

    /// The index that tells this parameter from all others.
    pub fn index(&self) -> (index: u64)
        ensures
            index == self@,
    {
        self.index
    }
}

/// A unique identifier for a mixer sub-track.
#[derive(Debug, Clone, Copy, PartialEq, Eq, Hash, Structural)]
pub struct SubTrackId {
    index: u64,
}

impl View for SubTrackId {
    type V = u64;

    closed spec fn view(&self) -> u64 {
        self.index
    }
}

impl SubTrackId {
    /// Makes the identifier of a new sub-track.
    pub fn new(ids: &mut IdAllocator) -> (id: Self)
        requires
            old(ids).issued(IdKind::SubTrack) < u64::MAX,
        ensures
            id@ as nat == old(ids).issued(IdKind::SubTrack),
            *final(ids) == old(ids).issue(IdKind::SubTrack),
            final(ids).issued(IdKind::SubTrack) == old(ids).issued(IdKind::SubTrack) + 1,
            forall|other: IdKind|
                other != IdKind::SubTrack ==> final(ids).issued(other) == old(ids).issued(other),
    {
        SubTrackId { index: ids.next(IdKind::SubTrack) }
    }

    /// The index that tells this sub-track from all others.
    pub fn index(&self) -> (index: u64)
        ensures
            index == self@,
    {
        self.index
    }
}

/// A unique identifier for a clock.
#[derive(Debug, Clone, Copy, PartialEq, Eq, Hash, Structural)]
pub struct ClockId {
    index: u64,
}

impl View for ClockId {
    type V = u64;

    closed spec fn view(&self) -> u64 {
        self.index
    }
}

impl ClockId {
    /// Makes the identifier of a new clock.
    pub fn new(ids: &mut IdAllocator) -> (id: Self)
        requires
            old(ids).issued(IdKind::Clock) < u64::MAX,
        ensures
            id@ as nat == old(ids).issued(IdKind::Clock),
            *final(ids) == old(ids).issue(IdKind::Clock),
            final(ids).issued(IdKind::Clock) == old(ids).issued(IdKind::Clock) + 1,
            forall|other: IdKind|
                other != IdKind::Clock ==> final(ids).issued(other) == old(ids).issued(other),
    {
        ClockId { index: ids.next(IdKind::Clock) }
    }

    /// The index that tells this clock from all others.
    pub fn index(&self) -> (index: u64)
        ensures
            index == self@,
    {
        self.index
    }
}

/// A unique identifier for an audio stream.
#[derive(Debug, Clone, Copy, PartialEq, Eq, Hash, Structural)]
pub struct AudioStreamId {
    index: u64,
}

impl View for AudioStreamId {
    type V = u64;

    closed spec fn view(&self) -> u64 {
        self.index
    }
}

impl AudioStreamId {
    /// Makes the identifier of a new audio stream.
    pub fn new(ids: &mut IdAllocator) -> (id: Self)
        requires
            old(ids).issued(IdKind::AudioStream) < u64::MAX,
        ensures
            id@ as nat == old(ids).issued(IdKind::AudioStream),
            *final(ids) == old(ids).issue(IdKind::AudioStream),
            final(ids).issued(IdKind::AudioStream) == old(ids).issued(IdKind::AudioStream) + 1,
            forall|other: IdKind|
                other != IdKind::AudioStream ==> final(ids).issued(other) == old(ids).issued(other),
    {
        AudioStreamId { index: ids.next(IdKind::AudioStream) }
    }

    /// The index that tells this audio stream from all others.
    pub fn index(&self) -> (index: u64)
        ensures
            index == self@,
    {
        self.index
    }
}

/// The track that a sound or a sub-track sends its output to.
#[derive(Debug, Clone, Copy, PartialEq, Eq, Hash, Structural)]
pub enum TrackIndex {
    /// The main mixer track.
    Main,
    /// A sub-track.
    Sub(SubTrackId),
}

/// A unique identifier for a track: the main track, or a sub-track.
pub type TrackId = TrackIndex;

impl Default for TrackIndex {
    fn default() -> (track: Self)
        ensures
            track == TrackIndex::Main,
    {
        TrackIndex::Main
    }
}

/// A unique identifier for a sound.
///
/// You cannot create this manually: a sound ID is made when a sound is handed
/// to the audio manager. Two sound IDs are equal when their indices are.
#[derive(Debug, Clone, Copy)]
pub struct SoundId {
    index: u64,
    duration: u64,
    default_track_index: TrackIndex,
    metadata: Metadata,
}

impl View for SoundId {
    type V = u64;

    closed spec fn view(&self) -> u64 {
        self.index
    }
}

impl SoundId {
    /// The duration that the ID was made with.
    pub closed spec fn duration_micros(self) -> u64 {
        self.duration
    }

    /// The track that the ID was made with.
    pub closed spec fn default_track(self) -> TrackIndex {
        self.default_track_index
    }

    /// The metadata that the ID was made with.
    pub closed spec fn metadata_held(self) -> Metadata {
        self.metadata
    }

    /// Makes the identifier of a new sound, which remembers the sound's
    /// duration in microseconds, the track it plays on and its metadata.
    pub fn new(
        ids: &mut IdAllocator,
        duration: u64,
        default_track_index: TrackIndex,
        metadata: Metadata,
    ) -> (id: Self)
        requires
            old(ids).issued(IdKind::Sound) < u64::MAX,
        ensures
            id@ as nat == old(ids).issued(IdKind::Sound),
            id.duration_micros() == duration,
            id.default_track() == default_track_index,
            id.metadata_held() == metadata,
            *final(ids) == old(ids).issue(IdKind::Sound),
            final(ids).issued(IdKind::Sound) == old(ids).issued(IdKind::Sound) + 1,
            forall|other: IdKind|
                other != IdKind::Sound ==> final(ids).issued(other) == old(ids).issued(other),
    {
        let index = ids.next(IdKind::Sound);
        SoundId { index, duration, default_track_index, metadata }
    }

    /// The index that tells this sound from all others.
    pub fn index(&self) -> (index: u64)
        ensures
            index == self@,
    {
        self.index
    }

    /// The duration of the sound in microseconds.
    pub fn duration(&self) -> (duration: u64)
        ensures
            duration == self.duration_micros(),
    {
        self.duration
    }

    /// The track that the sound plays on unless told otherwise.
    pub fn default_track_index(&self) -> (track: TrackIndex)
        ensures
            track == self.default_track(),
    {
        self.default_track_index
    }

    /// The metadata of the sound.
    pub fn metadata(&self) -> (metadata: &Metadata)
        ensures
            *metadata == self.metadata_held(),
    {
        &self.metadata
    }
}

impl PartialEq for SoundId {
    fn eq(&self, other: &Self) -> (equal: bool) {
        self.index == other.index
    }
}

impl vstd::std_specs::cmp::PartialEqSpecImpl for SoundId {
    open spec fn obeys_eq_spec() -> bool {
        true
    }

    open spec fn eq_spec(&self, other: &Self) -> bool {
        self@ == other@
    }
}

impl Eq for SoundId {

}

impl std::hash::Hash for SoundId {
    /// Hashes the index of the identifier and nothing else, so that equal
    /// identifiers hash alike. The body hands the index to `u64`'s
    /// `Hash::hash` of the standard library; nothing is claimed of what that
    /// does to the hasher.
    #[verifier::external_body]
    fn hash<H: std::hash::Hasher>(&self, state: &mut H) {
        self.index.hash(state);
    }
}

} // verus!
