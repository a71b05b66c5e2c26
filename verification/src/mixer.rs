//! The mixer: a tree of tracks, with the main track at its root.
//!
//! Sounds put their output into a track. Every sub-track sends what it has
//! gathered, at its volume and its panning, to its parent, and the main track
//! sends what it has gathered to the output. A sub-track can only be added
//! below a track that is there already, and none is ever taken away, so every
//! sub-track stands behind its parent, and one pass from the last sub-track
//! to the first brings everything to the main track.

use crate::error::LimitReachedError;
use crate::frame::{Frame, CENTER, UNITY};
use crate::id::{SubTrackId, TrackIndex};
use crate::parameter::Parameter;
use crate::pool::Pool;
use crate::value::Value;
use vstd::prelude::*;

verus! {

/// The settings of a new sub-track.
#[derive(Debug, Clone, Copy, PartialEq, Eq, Structural)]
pub struct Track {
    /// The volume of the track.
    pub volume: Value,
    /// The panning of the track: zero is the far left, [`UNITY`] the far right.
    pub panning: Value,
    /// The track that this one sends its output to.
    pub parent: TrackIndex,
}

impl Track {
    /// A track at full volume, in the middle, that sends its output to the
    /// main track.
    pub fn new() -> (track: Self)
        ensures
            track == (Track {
                volume: Value::Fixed(UNITY),
                panning: Value::Fixed(CENTER),
                parent: TrackIndex::Main,
            }),
    {
        Track {
            volume: Value::Fixed(UNITY),
            panning: Value::Fixed(CENTER),
            parent: TrackIndex::Main,
        }
    }

    /// The same track at another volume.
    pub fn volume(self, volume: Value) -> (track: Self)
        ensures
            track == (Track { volume, ..self }),
    {
        Track { volume, ..self }
    }

    /// The same track at another panning.
    pub fn panning(self, panning: Value) -> (track: Self)
        ensures
            track == (Track { panning, ..self }),
    {
        Track { panning, ..self }
    }

    /// The same track below another parent.
    pub fn parent_track(self, parent: TrackIndex) -> (track: Self)
        ensures
            track == (Track { parent, ..self }),
    {
        Track { parent, ..self }
    }
}

/// A sub-track as the mixer holds it.
#[derive(Debug, Clone, Copy, PartialEq, Eq, Structural)]
pub struct SubTrack {
    /// The identifier of the track.
    pub id: SubTrackId,
    /// The volume of the track.
    pub volume: Value,
    /// The panning of the track.
    pub panning: Value,
    /// The place of the parent among the sub-tracks, or `None` where the
    /// parent is the main track.
    pub parent: Option<usize>,
}

/// The volume and the panning of a track as numbers.
#[derive(Debug, Clone, Copy, PartialEq, Eq, Structural)]
pub struct Levels {
    /// The volume: [`UNITY`] leaves the audio as it is.
    pub volume: i32,
    /// The panning: zero is the far left, [`UNITY`] the far right.
    pub panning: i32,
}

impl Levels {
    /// A frame at this volume and this panning.
    pub open spec fn applied(self, frame: Frame) -> Frame {
        frame.scaled(self.volume).panned(self.panning)
    }

    /// Applies the volume and the panning to a frame.
    pub fn apply(&self, frame: Frame) -> (out: Frame)
        ensures
            out == self.applied(frame),
    {
        frame.scale(self.volume).pan(self.panning)
    }

    /// At a volume of zero, nothing is left of a frame.
    pub proof fn lemma_muted(self, frame: Frame)
        requires
            self.volume <= 0,
        ensures
            self.applied(frame) == Frame::zero(),
    {
        frame.lemma_silenced(self.volume);
        Frame::lemma_silence_panned(self.panning);
    }
}

/// What a mixer holds: the settings of the main track, the sub-tracks in the
/// order in which they were added, and the number of sub-tracks that there is
/// room for.
///
/// Frames are handed to the mixer in slots: slot zero is the main track, slot
/// `k + 1` is the sub-track at place `k`.
#[verifier::ext_equal]
pub struct MixerView {
    /// The volume of the main track.
    pub main_volume: Value,
    /// The panning of the main track.
    pub main_panning: Value,
    /// The sub-tracks.
    pub tracks: Seq<SubTrack>,
    /// The number of sub-tracks that there is room for.
    pub room: nat,
}

impl MixerView {
    /// A mixer without sub-tracks, whose main track is at full volume and in
    /// the middle.
    pub open spec fn empty(room: nat) -> MixerView {
        MixerView {
            main_volume: Value::Fixed(UNITY),
            main_panning: Value::Fixed(CENTER),
            tracks: Seq::<SubTrack>::empty(),
            room,
        }
    }

    /// What holds of every mixer: it holds no more sub-tracks than it has
    /// room for, no two of them have the same identifier, and the parent of
    /// every sub-track stands before it.
    pub open spec fn wf(self) -> bool {
        &&& self.tracks.len() <= self.room
        &&& forall|a: int, b: int|
            0 <= a < b < self.tracks.len() ==> (#[trigger] self.tracks[a]).id@ != (
            #[trigger] self.tracks[b]).id@
        &&& forall|k: int|
            0 <= k < self.tracks.len() ==> ((#[trigger] self.tracks[k]).parent matches Some(p)
                ==> p < k)
    }

    /// The place of the sub-track with the identifier of index `id`.
    pub open spec fn index_of(self, id: u64) -> Option<int> {
        if exists|i: int| 0 <= i < self.tracks.len() && (#[trigger] self.tracks[i]).id@ == id {
            Some(choose|i: int| 0 <= i < self.tracks.len() && (#[trigger] self.tracks[i]).id@ == id)
        } else {
            None
        }
    }

    /// The slot of a track, if the mixer holds that track.
    pub open spec fn slot_of(self, track: TrackIndex) -> Option<int> {
        match track {
            TrackIndex::Main => Some(0),
            TrackIndex::Sub(id) => match self.index_of(id@) {
                Some(place) => Some(place + 1),
                None => None,
            },
        }
    }

    /// The mixer after a sub-track was offered to it.
    ///
    /// A mixer that has no room left stays as it is. So does one that holds a
    /// sub-track under that identifier already, or that does not hold the
    /// parent that the new track names. Else the new track stands behind the
    /// others.
    pub open spec fn with_sub_track(self, id: SubTrackId, track: Track) -> MixerView {
        if self.tracks.len() >= self.room || self.index_of(id@) is Some {
            self
        } else {
            match track.parent {
                TrackIndex::Main => MixerView {
                    tracks: self.tracks.push(
                        SubTrack { id, volume: track.volume, panning: track.panning, parent: None },
                    ),
                    ..self
                },
                TrackIndex::Sub(parent) => match self.index_of(parent@) {
                    Some(place) => MixerView {
                        tracks: self.tracks.push(
                            SubTrack {
                                id,
                                volume: track.volume,
                                panning: track.panning,
                                parent: Some(place as usize),
                            },
                        ),
                        ..self
                    },
                    None => self,
                },
            }
        }
    }

    /// The mixer after a track was given a volume. Where it does not hold
    /// that track, it stays as it is.
    pub open spec fn with_volume(self, track: TrackIndex, volume: Value) -> MixerView {
        match track {
            TrackIndex::Main => MixerView { main_volume: volume, ..self },
            TrackIndex::Sub(id) => match self.index_of(id@) {
                Some(place) => MixerView {
                    tracks: self.tracks.update(place, SubTrack { volume, ..self.tracks[place] }),
                    ..self
                },
                None => self,
            },
        }
    }

    /// The mixer after a track was given a panning. Where it does not hold
    /// that track, it stays as it is.
    pub open spec fn with_panning(self, track: TrackIndex, panning: Value) -> MixerView {
        match track {
            TrackIndex::Main => MixerView { main_panning: panning, ..self },
            TrackIndex::Sub(id) => match self.index_of(id@) {
                Some(place) => MixerView {
                    tracks: self.tracks.update(place, SubTrack { panning, ..self.tracks[place] }),
                    ..self
                },
                None => self,
            },
        }
    }

    /// The levels of all tracks, slot by slot, given the parameters that
    /// there are.
    pub open spec fn levels(self, parameters: Map<u64, Parameter>) -> Seq<Levels> {
        Seq::new(
            self.tracks.len() + 1,
            |slot: int|
                if slot == 0 {
                    Levels {
                        volume: self.main_volume.resolved(parameters),
                        panning: self.main_panning.resolved(parameters),
                    }
                } else {
                    Levels {
                        volume: self.tracks[slot - 1].volume.resolved(parameters),
                        panning: self.tracks[slot - 1].panning.resolved(parameters),
                    }
                },
        )
    }

    /// The slot that the sub-track at place `k` sends its output to.
    pub open spec fn dest(self, k: int) -> int {
        match self.tracks[k].parent {
            Some(place) => place as int + 1,
            None => 0,
        }
    }

    /// What the slots hold when the sub-tracks from the last one down to the
    /// one at place `k` have sent their output on: each of them, in that
    /// order, has added what its slot held, at its levels, to the slot of its
    /// parent.
    pub open spec fn accumulated(self, levels: Seq<Levels>, inputs: Seq<Frame>, k: int) -> Seq<
        Frame,
    >
        decreases self.tracks.len() - k,
    {
        if k < 0 || k >= self.tracks.len() {
            inputs
        } else {
            let gathered = self.accumulated(levels, inputs, k + 1);
            gathered.update(
                self.dest(k),
                gathered[self.dest(k)].mixed(levels[k + 1].applied(gathered[k + 1])),
            )
        }
    }

    /// The frame that leaves the mixer when `inputs` is put into its slots:
    /// what the main track has gathered from all tracks, at its own levels.
    pub open spec fn mixed(self, levels: Seq<Levels>, inputs: Seq<Frame>) -> Frame {
        levels[0].applied(self.accumulated(levels, inputs, 0)[0])
    }

    /// Whether the sub-track at place `k` is the one at place `root` or
    /// stands below it in the tree.
    pub open spec fn in_subtree(self, root: int, k: int) -> bool
        decreases k,
    {
        k == root || (0 <= k < self.tracks.len() && match self.tracks[k].parent {
            Some(place) => (place as int) < k && self.in_subtree(root, place as int),
            None => false,
        })
    }

    /// Whether a slot belongs to a track that is neither the sub-track at
    /// place `root` nor below it.
    pub open spec fn outside(self, root: int, slot: int) -> bool {
        slot == 0 || !self.in_subtree(root, slot - 1)
    }

    /// Two runs of the mixer whose inputs differ only below a muted track
    /// hold the same frames everywhere else, at every step.
    proof fn lemma_muted_subtree(
        self,
        levels: Seq<Levels>,
        a: Seq<Frame>,
        b: Seq<Frame>,
        root: int,
        k: int,
    )
        requires
            self.wf(),
            0 <= root < self.tracks.len(),
            levels.len() == self.tracks.len() + 1,
            a.len() == self.tracks.len() + 1,
            b.len() == self.tracks.len() + 1,
            levels[root + 1].volume <= 0,
            forall|slot: int|
                0 <= slot <= self.tracks.len() && self.outside(root, slot) ==> a[slot] == b[slot],
            0 <= k <= self.tracks.len(),
        ensures
            self.accumulated(levels, a, k).len() == self.tracks.len() + 1,
            self.accumulated(levels, b, k).len() == self.tracks.len() + 1,
            forall|slot: int|
                0 <= slot <= self.tracks.len() && self.outside(root, slot) ==> self.accumulated(
                    levels,
                    a,
                    k,
                )[slot] == self.accumulated(levels, b, k)[slot],
        decreases self.tracks.len() - k,
    {
        if k < self.tracks.len() {
            self.lemma_muted_subtree(levels, a, b, root, k + 1);
            let x = self.accumulated(levels, a, k + 1);
            let y = self.accumulated(levels, b, k + 1);
            let dest = self.dest(k);
            assert(self.tracks[k].parent matches Some(p) ==> p < k);
            assert(0 <= dest <= k);
            if k == root {
                levels[k + 1].lemma_muted(x[k + 1]);
                levels[k + 1].lemma_muted(y[k + 1]);
                x[dest].lemma_mixed_with_silence();
                y[dest].lemma_mixed_with_silence();
            } else if self.in_subtree(root, k) {
                assert(!self.outside(root, dest));
            } else {
                assert(self.outside(root, k + 1));
                assert(self.outside(root, dest));
            }
        }
    }

    /// A track at a volume of zero silences what is below it and nothing
    /// else: while the volume of a sub-track is zero, whatever is put into it
    /// and into the tracks below it, the frame that leaves the mixer is the
    /// same. It is made of what is put into the other tracks alone.
    pub proof fn lemma_muted_track_is_silent(
        self,
        levels: Seq<Levels>,
        a: Seq<Frame>,
        b: Seq<Frame>,
        root: int,
    )
        requires
            self.wf(),
            0 <= root < self.tracks.len(),
            levels.len() == self.tracks.len() + 1,
            a.len() == self.tracks.len() + 1,
            b.len() == self.tracks.len() + 1,
            levels[root + 1].volume <= 0,
            forall|slot: int|
                0 <= slot <= self.tracks.len() && self.outside(root, slot) ==> a[slot] == b[slot],
        ensures
            self.mixed(levels, a) == self.mixed(levels, b),
    {
        self.lemma_muted_subtree(levels, a, b, root, 0);
        assert(self.outside(root, 0));
    }
}

/// The tracks of the renderer.
pub struct Mixer {
    main_volume: Value,
    main_panning: Value,
    tracks: Vec<SubTrack>,
    capacity: usize,
}

impl View for Mixer {
    type V = MixerView;

    closed spec fn view(&self) -> MixerView {
        MixerView {
            main_volume: self.main_volume,
            main_panning: self.main_panning,
            tracks: self.tracks@,
            room: self.capacity as nat,
        }
    }
}

impl Mixer {
    /// What holds of every mixer that [`Mixer::new`] made.
    pub open spec fn wf(self) -> bool {
        self@.wf()
    }

    /// A mixer without sub-tracks, with room for `capacity` of them. The main
    /// track is at full volume and in the middle.
    pub fn new(capacity: usize) -> (mixer: Self)
        ensures
            mixer.wf(),
            mixer@ == MixerView::empty(capacity as nat),
    {
        Mixer {
            main_volume: Value::Fixed(UNITY),
            main_panning: Value::Fixed(CENTER),
            tracks: Vec::new(),
            capacity,
        }
    }

    /// The number of sub-tracks that the mixer has room for.
    pub fn capacity(&self) -> (capacity: usize)
        ensures
            capacity == self@.room,
    {
        self.capacity
    }

    /// The number of sub-tracks.
    pub fn num_sub_tracks(&self) -> (count: usize)
        ensures
            count == self@.tracks.len(),
    {
        self.tracks.len()
    }

    /// The place of a sub-track.
    fn position(&self, id: SubTrackId) -> (found: Option<usize>)
        requires
            self.wf(),
        ensures
            match found {
                Some(place) => place < self@.tracks.len() && self@.index_of(id@) == Some(
                    place as int,
                ),
                None => self@.index_of(id@) is None,
            },
    {
        let mut i: usize = 0;
        while i < self.tracks.len()
            invariant
                self.wf(),
                i <= self.tracks@.len(),
                forall|j: int| 0 <= j < i ==> (#[trigger] self.tracks@[j]).id@ != id@,
            decreases self.tracks@.len() - i,
        {
            if self.tracks[i].id.index() == id.index() {
                proof {
                    assert(self@.tracks[i as int].id@ == id@);
                    let chosen = choose|c: int|
                        0 <= c < self@.tracks.len() && (#[trigger] self@.tracks[c]).id@ == id@;
                    if chosen < i {
                        assert(self@.tracks[chosen].id@ != self@.tracks[i as int].id@);
                    } else if chosen > i {
                        assert(self@.tracks[i as int].id@ != self@.tracks[chosen].id@);
                    }
                }
                return Some(i);
            }
            i = i + 1;
        }
        None
    }

    /// The slot of a track, if the mixer holds that track.
    pub fn slot(&self, track: TrackIndex) -> (slot: Option<usize>)
        requires
            self.wf(),
        ensures
            match slot {
                Some(slot) => slot <= self@.tracks.len() && self@.slot_of(track) == Some(
                    slot as int,
                ),
                None => self@.slot_of(track) is None,
            },
    {
        match track {
            TrackIndex::Main => Some(0),
            TrackIndex::Sub(id) => match self.position(id) {
                Some(place) => Some(place + 1),
                None => None,
            },
        }
    }

    /// Adds a sub-track. This fails where the mixer has no room left.
    ///
    /// A track whose identifier is in use, or whose parent the mixer does not
    /// hold, changes nothing.
    pub fn add_sub_track(&mut self, id: SubTrackId, track: Track) -> (result: Result<
        (),
        LimitReachedError,
    >)
        requires
            old(self).wf(),
        ensures
            final(self).wf(),
            result is Err <==> old(self)@.tracks.len() >= old(self)@.room,
            result is Err ==> result == Err::<(), LimitReachedError>(LimitReachedError),
            final(self)@ == old(self)@.with_sub_track(id, track),
    {
        if self.tracks.len() >= self.capacity {
            return Err(LimitReachedError);
        }
        if self.position(id).is_some() {
            return Ok(());
        }
        let parent: Option<usize> = match track.parent {
            TrackIndex::Main => None,
            TrackIndex::Sub(parent) => match self.position(parent) {
                Some(place) => Some(place),
                None => {
                    return Ok(());
                },
            },
        };
        let ghost before = self@;
        self.tracks.push(SubTrack { id, volume: track.volume, panning: track.panning, parent });
        proof {
            assert forall|a: int, b: int| 0 <= a < b < self@.tracks.len() implies (
            #[trigger] self@.tracks[a]).id@ != (#[trigger] self@.tracks[b]).id@ by {
                if b == before.tracks.len() {
                    assert(before.tracks[a].id@ != id@);
                } else {
                    assert(before.tracks[a].id@ != before.tracks[b].id@);
                }
            }
            assert forall|k: int| 0 <= k < self@.tracks.len() implies ((
            #[trigger] self@.tracks[k]).parent matches Some(p) ==> p < k) by {
                if k < before.tracks.len() {
                    assert(before.tracks[k].parent matches Some(p) ==> p < k);
                }
            }
        }
        Ok(())
    }

    /// Gives a track a volume. Where the mixer does not hold the track,
    /// nothing happens.
    pub fn set_track_volume(&mut self, track: TrackIndex, volume: Value)
        requires
            old(self).wf(),
        ensures
            final(self).wf(),
            final(self)@ == old(self)@.with_volume(track, volume),
    {
        match track {
            TrackIndex::Main => {
                self.main_volume = volume;
            },
            TrackIndex::Sub(id) => match self.position(id) {
                Some(place) => {
                    let ghost before = self@;
                    let changed = SubTrack { volume, ..self.tracks[place] };
                    self.tracks.set(place, changed);
                    proof {
                        assert forall|a: int, b: int| 0 <= a < b < self@.tracks.len() implies (
                        #[trigger] self@.tracks[a]).id@ != (#[trigger] self@.tracks[b]).id@ by {
                            assert(before.tracks[a].id@ != before.tracks[b].id@);
                        }
                        assert forall|k: int| 0 <= k < self@.tracks.len() implies ((
                        #[trigger] self@.tracks[k]).parent matches Some(p) ==> p < k) by {
                            assert(before.tracks[k].parent matches Some(p) ==> p < k);
                        }
                    }
                },
                None => {},
            },
        }
    }

    /// Gives a track a panning. Where the mixer does not hold the track,
    /// nothing happens.
    pub fn set_track_panning(&mut self, track: TrackIndex, panning: Value)
        requires
            old(self).wf(),
        ensures
            final(self).wf(),
            final(self)@ == old(self)@.with_panning(track, panning),
    {
        match track {
            TrackIndex::Main => {
                self.main_panning = panning;
            },
            TrackIndex::Sub(id) => match self.position(id) {
                Some(place) => {
                    let ghost before = self@;
                    let changed = SubTrack { panning, ..self.tracks[place] };
                    self.tracks.set(place, changed);
                    proof {
                        assert forall|a: int, b: int| 0 <= a < b < self@.tracks.len() implies (
                        #[trigger] self@.tracks[a]).id@ != (#[trigger] self@.tracks[b]).id@ by {
                            assert(before.tracks[a].id@ != before.tracks[b].id@);
                        }
                        assert forall|k: int| 0 <= k < self@.tracks.len() implies ((
                        #[trigger] self@.tracks[k]).parent matches Some(p) ==> p < k) by {
                            assert(before.tracks[k].parent matches Some(p) ==> p < k);
                        }
                    }
                },
                None => {},
            },
        }
    }

    /// Looks up the levels of all tracks, slot by slot.
    pub fn levels(&self, parameters: &Pool<Parameter>) -> (levels: Vec<Levels>)
        requires
            self.wf(),
            parameters.wf(),
        ensures
            levels@ == self@.levels(parameters@),
    {
        let mut levels: Vec<Levels> = Vec::new();
        levels.push(
            Levels {
                volume: self.main_volume.resolve(parameters),
                panning: self.main_panning.resolve(parameters),
            },
        );
        let mut k: usize = 0;
        while k < self.tracks.len()
            invariant
                parameters.wf(),
                k <= self.tracks@.len(),
                levels@.len() == k + 1,
                forall|slot: int|
                    0 <= slot <= k ==> levels@[slot] == self@.levels(parameters@)[slot],
            decreases self.tracks@.len() - k,
        {
            let track = self.tracks[k];
            levels.push(
                Levels {
                    volume: track.volume.resolve(parameters),
                    panning: track.panning.resolve(parameters),
                },
            );
            k = k + 1;
        }
        assert(levels@ =~= self@.levels(parameters@));
        levels
    }

    /// Mixes one frame of output from the frames in `slots`, one for every
    /// track: the main track's first, then those of the sub-tracks in their
    /// order. The slots are used up in this.
    pub fn mix(&self, levels: &Vec<Levels>, slots: &mut Vec<Frame>) -> (out: Frame)
        requires
            self.wf(),
            levels@.len() == self@.tracks.len() + 1,
            old(slots)@.len() == self@.tracks.len() + 1,
        ensures
            out == self@.mixed(levels@, old(slots)@),
            final(slots)@.len() == old(slots)@.len(),
    {
        let ghost inputs = slots@;
        let mut k: usize = self.tracks.len();
        while k > 0
            invariant
                self.wf(),
                k <= self.tracks@.len(),
                levels@.len() == self@.tracks.len() + 1,
                slots@.len() == self@.tracks.len() + 1,
                slots@ == self@.accumulated(levels@, inputs, k as int),
            decreases k,
        {
            k = k - 1;
            assert(self@.tracks[k as int].parent matches Some(p) ==> p < k);
            let dest: usize = match self.tracks[k].parent {
                Some(place) => place + 1,
                None => 0,
            };
            let sent = levels[k + 1].apply(slots[k + 1]);
            let sum = slots[dest].mix(sent);
            slots.set(dest, sum);
        }
        levels[0].apply(slots[0])
    }

    /// Mixes a batch of output from the buffers of all tracks, one buffer for
    /// every slot, and applies a gain to it. Every frame of the output is
    /// mixed from the frames at its place in the buffers.
    pub fn mix_buffers(
        &self,
        levels: &Vec<Levels>,
        buffers: &Vec<Vec<Frame>>,
        gain: i32,
        out: &mut Vec<Frame>,
    )
        requires
            self.wf(),
            levels@.len() == self@.tracks.len() + 1,
            buffers@.len() == self@.tracks.len() + 1,
            forall|slot: int|
                0 <= slot < buffers@.len() ==> (#[trigger] buffers@[slot])@.len() == old(
                    out,
                )@.len(),
        ensures
            final(out)@.len() == old(out)@.len(),
            forall|f: int|
                0 <= f < final(out)@.len() ==> #[trigger] final(out)@[f] == self@.mixed(
                    levels@,
                    column(buffers@, f),
                ).scaled(gain),
    {
        let rows = buffers.len();
        let frames = out.len();
        let mut slots: Vec<Frame> = Vec::new();
        let mut slot: usize = 0;
        while slot < rows
            invariant
                slot <= rows,
                slots@.len() == slot,
            decreases rows - slot,
        {
            slots.push(Frame::silence());
            slot = slot + 1;
        }
        let mut f: usize = 0;
        while f < frames
            invariant
                self.wf(),
                f <= frames,
                frames == out@.len(),
                rows == buffers@.len(),
                levels@.len() == self@.tracks.len() + 1,
                buffers@.len() == self@.tracks.len() + 1,
                slots@.len() == rows,
                forall|slot: int|
                    0 <= slot < buffers@.len() ==> (#[trigger] buffers@[slot])@.len() == frames,
                forall|g: int|
                    0 <= g < f ==> #[trigger] out@[g] == self@.mixed(
                        levels@,
                        column(buffers@, g),
                    ).scaled(gain),
            decreases frames - f,
        {
            let mut slot: usize = 0;
            while slot < rows
                invariant
                    slot <= rows,
                    f < frames,
                    rows == buffers@.len(),
                    slots@.len() == rows,
                    forall|slot: int|
                        0 <= slot < buffers@.len() ==> (#[trigger] buffers@[slot])@.len()
                            == frames,
                    forall|s: int| 0 <= s < slot ==> slots@[s] == buffers@[s]@[f as int],
                decreases rows - slot,
            {
                assert(buffers@[slot as int]@.len() == frames);
                slots.set(slot, buffers[slot][f]);
                slot = slot + 1;
            }
            assert(slots@ =~= column(buffers@, f as int));
            let mixed = self.mix(levels, &mut slots);
            out.set(f, mixed.scale(gain));
            f = f + 1;
        }
    }
}

/// The frames at place `f` of the buffers of all tracks, slot by slot.
pub open spec fn column(buffers: Seq<Vec<Frame>>, f: int) -> Seq<Frame> {
    Seq::new(buffers.len(), |slot: int| buffers[slot]@[f])
}

} // verus!
