//! The renderer: it owns every resource, and once per render tick it takes
//! the commands that wait for it, lets time pass and produces a batch of
//! output.

use crate::audio_stream::{AudioStream, AudioStreamWrapper};
use crate::clock::Clock;
use crate::command::{
    AudioStreamCommand, ClockCommand, Command, CommandQueue, MixerCommand, ParameterCommand,
    SoundCommand,
};
use crate::frame::Frame;
use crate::id::{ClockId, ParameterId, TrackIndex};
use crate::info::Info;
use crate::mixer::{column, Mixer, MixerView};
use crate::parameter::Parameter;
use crate::playback::{Playback, StartTime};
use crate::pool::{after_insert, Pool};
use crate::sound::Sound;
use crate::tween::Transition;
use vstd::prelude::*;

verus! {

/// The numbers of resources that a renderer has room for.
#[derive(Debug, Clone, Copy, PartialEq, Eq, Structural)]
pub struct Capacities {
    /// The number of sounds that can play at a time.
    pub sounds: usize,
    /// The number of parameters.
    pub parameters: usize,
    /// The number of mixer sub-tracks.
    pub sub_tracks: usize,
    /// The number of clocks.
    pub clocks: usize,
    /// The number of audio streams.
    pub audio_streams: usize,
}

/// A sound in the renderer, and the track that it plays on.
pub struct PlayingSound<S> {
    /// The sound.
    pub sound: S,
    /// The track that gets the output of the sound.
    pub track: TrackIndex,
}

/// The resource under `id` changed by `change`, where there is one.
pub open spec fn changed<T>(resources: Map<u64, T>, id: u64, change: spec_fn(T) -> T) -> Map<
    u64,
    T,
> {
    if resources.contains_key(id) {
        resources.insert(id, change(resources[id]))
    } else {
        resources
    }
}

/// The parameters after a command. One that names a parameter that is not
/// there changes nothing.
pub open spec fn parameters_after(
    parameters: Map<u64, Parameter>,
    room: nat,
    command: ParameterCommand,
) -> Map<u64, Parameter> {
    match command {
        ParameterCommand::Add(id, parameter) => after_insert(parameters, room, id@, parameter),
        ParameterCommand::SetValue { id, target, tween } => changed(
            parameters,
            id@,
            |p: Parameter|
                Parameter {
                    transition: Some(
                        Transition { start: p.value, target, elapsed: 0, duration: tween.duration },
                    ),
                    ..p
                },
        ),
        ParameterCommand::Pause(id) => changed(
            parameters,
            id@,
            |p: Parameter| Parameter { paused: true, ..p },
        ),
        ParameterCommand::Resume(id) => changed(
            parameters,
            id@,
            |p: Parameter| Parameter { paused: false, ..p },
        ),
    }
}

/// The clocks after a command. One that names a clock that is not there
/// changes nothing.
pub open spec fn clocks_after(clocks: Map<u64, Clock>, room: nat, command: ClockCommand) -> Map<
    u64,
    Clock,
> {
    match command {
        ClockCommand::Add(id, clock) => after_insert(clocks, room, id@, clock),
        ClockCommand::SetInterval(id, interval) => changed(
            clocks,
            id@,
            |c: Clock| Clock { interval, ..c },
        ),
        ClockCommand::Start(id) => changed(clocks, id@, |c: Clock| Clock { ticking: true, ..c }),
        ClockCommand::Pause(id) => changed(clocks, id@, |c: Clock| Clock { ticking: false, ..c }),
        ClockCommand::Stop(id) => changed(
            clocks,
            id@,
            |c: Clock| Clock { ticking: false, ticks: 0, fraction: 0, ..c },
        ),
    }
}

/// The mixer after a command.
pub open spec fn mixer_after(mixer: MixerView, command: MixerCommand) -> MixerView {
    match command {
        MixerCommand::AddSubTrack(id, track) => mixer.with_sub_track(id, track),
        MixerCommand::SetTrackVolume(track, volume) => mixer.with_volume(track, volume),
        MixerCommand::SetTrackPanning(track, panning) => mixer.with_panning(track, panning),
    }
}

/// What a renderer holds: its resources, each kind under the indices of its
/// identifiers, the room that it has for each kind, and the playback that
/// pauses and resumes all sounds at once.
#[verifier::ext_equal]
pub struct RendererView<S, A> {
    /// The parameters.
    pub parameters: Map<u64, Parameter>,
    /// The number of parameters that there is room for.
    pub parameter_room: nat,
    /// The clocks.
    pub clocks: Map<u64, Clock>,
    /// The number of clocks that there is room for.
    pub clock_room: nat,
    /// The tracks.
    pub mixer: MixerView,
    /// The sounds that play.
    pub sounds: Map<u64, PlayingSound<S>>,
    /// The number of sounds that there is room for.
    pub sound_room: nat,
    /// The audio streams.
    pub streams: Map<u64, AudioStreamWrapper<A>>,
    /// The number of audio streams that there is room for.
    pub stream_room: nat,
    /// The playback of the renderer as a whole.
    pub playback: Playback,
}

impl<S, A> RendererView<S, A> {
    /// The renderer after a command.
    ///
    /// A resource is added where there is room for it, and dropped else. A
    /// request to pause or to resume goes to the playback of the renderer as
    /// a whole; it resumes at once.
    pub open spec fn applied(self, command: Command<S, A>) -> RendererView<S, A> {
        match command {
            Command::Parameter(command) => RendererView {
                parameters: parameters_after(self.parameters, self.parameter_room, command),
                ..self
            },
            Command::Mixer(command) => RendererView {
                mixer: mixer_after(self.mixer, command),
                ..self
            },
            Command::Clock(command) => RendererView {
                clocks: clocks_after(self.clocks, self.clock_room, command),
                ..self
            },
            Command::AudioStream(AudioStreamCommand::Add(id, stream)) => RendererView {
                streams: after_insert(self.streams, self.stream_room, id@, stream),
                ..self
            },
            Command::Sound(SoundCommand::Play(id, sound)) => RendererView {
                sounds: after_insert(
                    self.sounds,
                    self.sound_room,
                    id@,
                    PlayingSound { sound, track: id.default_track() },
                ),
                ..self
            },
            Command::Pause(tween) => RendererView {
                playback: self.playback.paused_with(tween),
                ..self
            },
            Command::Resume(tween) => RendererView {
                playback: self.playback.resume_scheduled(StartTime::Immediate, tween),
                ..self
            },
        }
    }

    /// The renderer after a run of commands, the first one first.
    pub open spec fn applied_all(self, commands: Seq<Command<S, A>>) -> RendererView<S, A>
        decreases commands.len(),
    {
        if commands.len() == 0 {
            self
        } else {
            self.applied_all(commands.drop_last()).applied(commands.last())
        }
    }

    /// The parameters after `dt` more microseconds.
    pub open spec fn parameters_later(self, dt: u64) -> Map<u64, Parameter> {
        self.parameters.map_values(|p: Parameter| p.updated(dt))
    }

    /// The clocks after `dt` more microseconds. The interval of a clock is
    /// looked up in the parameters as they are after that time.
    pub open spec fn clocks_later(self, dt: u64) -> Map<u64, Clock> {
        self.clocks.map_values(
            |c: Clock| c.updated(dt, c.interval.resolved(self.parameters_later(dt))),
        )
    }

    /// The renderer after `dt` more microseconds: every parameter has moved
    /// on, then every clock, then the playback of the renderer as a whole.
    pub open spec fn advanced(self, dt: u64) -> RendererView<S, A> {
        RendererView {
            parameters: self.parameters_later(dt),
            clocks: self.clocks_later(dt),
            playback: self.playback.updated(dt, self.clocks_later(dt)),
            ..self
        }
    }

    /// The level at which the renderer puts out what it has mixed: that of
    /// its playback while it advances, and nothing while it does not.
    pub open spec fn output_gain(self) -> i32 {
        if self.playback.state.advancing() {
            self.playback.amplitude
        } else {
            0
        }
    }

    /// Whether a batch of output is what the mixer of this renderer makes of
    /// the buffers of its tracks, one buffer for every slot, at the level of
    /// the renderer.
    pub open spec fn mixes(self, buffers: Seq<Vec<Frame>>, out: Seq<Frame>) -> bool {
        &&& buffers.len() == self.mixer.tracks.len() + 1
        &&& forall|slot: int|
            0 <= slot < buffers.len() ==> (#[trigger] buffers[slot])@.len() == out.len()
        &&& forall|f: int|
            0 <= f < out.len() ==> #[trigger] out[f] == self.mixer.mixed(
                self.mixer.levels(self.parameters),
                column(buffers, f),
            ).scaled(self.output_gain())
    }

    /// Whether two renderers hold the same but for their sounds and audio
    /// streams.
    pub open spec fn same_settings(self, other: RendererView<S, A>) -> bool {
        &&& self.parameters == other.parameters
        &&& self.parameter_room == other.parameter_room
        &&& self.clocks == other.clocks
        &&& self.clock_room == other.clock_room
        &&& self.mixer == other.mixer
        &&& self.sound_room == other.sound_room
        &&& self.stream_room == other.stream_room
        &&& self.playback == other.playback
    }
}

/// Applies a command to the parameters.
pub fn apply_parameter_command(parameters: &mut Pool<Parameter>, command: ParameterCommand)
    requires
        old(parameters).wf(),
    ensures
        final(parameters).wf(),
        final(parameters).room() == old(parameters).room(),
        final(parameters)@ == parameters_after(old(parameters)@, old(parameters).room(), command),
{
    match command {
        ParameterCommand::Add(id, parameter) => {
            let _ = parameters.insert(id.index(), parameter);
        },
        ParameterCommand::SetValue { id, target, tween } => {
            match parameters.get_mut(id.index()) {
                Some(parameter) => {
                    parameter.set(target, tween);
                },
                None => {},
            }
        },
        ParameterCommand::Pause(id) => {
            match parameters.get_mut(id.index()) {
                Some(parameter) => {
                    parameter.pause();
                },
                None => {},
            }
        },
        ParameterCommand::Resume(id) => {
            match parameters.get_mut(id.index()) {
                Some(parameter) => {
                    parameter.resume();
                },
                None => {},
            }
        },
    }
}

/// Applies a command to the clocks.
pub fn apply_clock_command(clocks: &mut Pool<Clock>, command: ClockCommand)
    requires
        old(clocks).wf(),
    ensures
        final(clocks).wf(),
        final(clocks).room() == old(clocks).room(),
        final(clocks)@ == clocks_after(old(clocks)@, old(clocks).room(), command),
{
    match command {
        ClockCommand::Add(id, clock) => {
            let _ = clocks.insert(id.index(), clock);
        },
        ClockCommand::SetInterval(id, interval) => {
            match clocks.get_mut(id.index()) {
                Some(clock) => {
                    clock.set_interval(interval);
                },
                None => {},
            }
        },
        ClockCommand::Start(id) => {
            match clocks.get_mut(id.index()) {
                Some(clock) => {
                    clock.start();
                },
                None => {},
            }
        },
        ClockCommand::Pause(id) => {
            match clocks.get_mut(id.index()) {
                Some(clock) => {
                    clock.pause();
                },
                None => {},
            }
        },
        ClockCommand::Stop(id) => {
            match clocks.get_mut(id.index()) {
                Some(clock) => {
                    clock.stop();
                },
                None => {},
            }
        },
    }
}

/// Applies a command to the mixer.
pub fn apply_mixer_command(mixer: &mut Mixer, command: MixerCommand)
    requires
        old(mixer).wf(),
    ensures
        final(mixer).wf(),
        final(mixer)@ == mixer_after(old(mixer)@, command),
{
    match command {
        MixerCommand::AddSubTrack(id, track) => {
            let _ = mixer.add_sub_track(id, track);
        },
        MixerCommand::SetTrackVolume(track, volume) => {
            mixer.set_track_volume(track, volume);
        },
        MixerCommand::SetTrackPanning(track, panning) => {
            mixer.set_track_panning(track, panning);
        },
    }
}

/// A buffer of `frames` frames of silence.
pub fn silent_buffer(frames: usize) -> (buffer: Vec<Frame>)
    ensures
        buffer@.len() == frames,
        forall|f: int| 0 <= f < frames ==> buffer@[f] == Frame::zero(),
{
    let mut buffer: Vec<Frame> = Vec::new();
    let mut f: usize = 0;
    while f < frames
        invariant
            f <= frames,
            buffer@.len() == f,
            forall|g: int| 0 <= g < f ==> buffer@[g] == Frame::zero(),
        decreases frames - f,
    {
        buffer.push(Frame::silence());
        f = f + 1;
    }
    buffer
}

/// A batch of `frames` frames of silence.
pub open spec fn silent(frames: nat) -> Seq<Frame> {
    Seq::new(frames, |f: int| Frame::zero())
}

/// A batch at a length of `frames`: what lies beyond is cut off, and what is
/// missing is silence.
pub open spec fn fitted(batch: Seq<Frame>, frames: nat) -> Seq<Frame> {
    Seq::new(
        frames,
        |f: int|
            if f < batch.len() {
                batch[f]
            } else {
                Frame::zero()
            },
    )
}

/// A buffer with a batch of the same length added to it, frame by frame.
pub open spec fn summed(buffer: Seq<Frame>, batch: Seq<Frame>) -> Seq<Frame> {
    Seq::new(buffer.len(), |f: int| buffer[f].mixed(batch[f]))
}

/// The frames in the buffers of all tracks, slot by slot.
pub open spec fn frames_of(buffers: Seq<Vec<Frame>>) -> Seq<Seq<Frame>> {
    Seq::new(buffers.len(), |slot: int| buffers[slot]@)
}

/// The buffers of the tracks after a batch was sent to a track: the batch
/// is added to the buffer of that track. A batch for a track that the mixer
/// does not hold is lost.
pub open spec fn routed(
    mixer: MixerView,
    track: TrackIndex,
    batch: Seq<Frame>,
    buffers: Seq<Seq<Frame>>,
) -> Seq<Seq<Frame>> {
    match mixer.slot_of(track) {
        Some(slot) => buffers.update(slot, summed(buffers[slot], batch)),
        None => buffers,
    }
}

/// The buffers of the tracks after what plays in the slots below `upto` has
/// sent its batch to its track, the lowest slot first. `tracks` holds the
/// track of what plays in every slot, `batches` its batch.
pub open spec fn gathered(
    mixer: MixerView,
    tracks: Seq<Option<TrackIndex>>,
    batches: Seq<Seq<Frame>>,
    buffers: Seq<Seq<Frame>>,
    upto: int,
) -> Seq<Seq<Frame>>
    decreases upto,
{
    if upto <= 0 {
        buffers
    } else {
        let before = gathered(mixer, tracks, batches, buffers, upto - 1);
        match tracks[upto - 1] {
            Some(track) => routed(mixer, track, batches[upto - 1], before),
            None => before,
        }
    }
}

/// What is gathered from the slots below `upto` does not depend on the
/// batches of the other slots.
proof fn lemma_gathered_prefix(
    mixer: MixerView,
    tracks: Seq<Option<TrackIndex>>,
    shorter: Seq<Seq<Frame>>,
    longer: Seq<Seq<Frame>>,
    buffers: Seq<Seq<Frame>>,
    upto: int,
)
    requires
        upto <= shorter.len() <= longer.len(),
        forall|k: int| 0 <= k < shorter.len() ==> shorter[k] == longer[k],
    ensures
        gathered(mixer, tracks, shorter, buffers, upto) == gathered(
            mixer,
            tracks,
            longer,
            buffers,
            upto,
        ),
    decreases upto,
{
    if upto > 0 {
        lemma_gathered_prefix(mixer, tracks, shorter, longer, buffers, upto - 1);
    }
}

/// The track of the sound in every slot of a pool.
pub open spec fn sound_tracks<S>(sounds: Pool<PlayingSound<S>>) -> Seq<Option<TrackIndex>> {
    Seq::new(
        sounds.room(),
        |j: int|
            match sounds.id_at(j) {
                Some(id) => Some(sounds@[id].track),
                None => None,
            },
    )
}

/// The track of the audio stream in every slot of a pool.
pub open spec fn stream_tracks<A>(streams: Pool<AudioStreamWrapper<A>>) -> Seq<
    Option<TrackIndex>,
> {
    Seq::new(
        streams.room(),
        |j: int|
            match streams.id_at(j) {
                Some(id) => Some(streams@[id].track),
                None => None,
            },
    )
}

/// Sends a batch to a track: the batch is added to the buffer of that track.
/// A batch for a track that the mixer does not hold is lost.
pub fn route(mixer: &Mixer, track: TrackIndex, batch: &Vec<Frame>, buffers: &mut Vec<Vec<Frame>>)
    requires
        mixer.wf(),
        old(buffers)@.len() == mixer@.tracks.len() + 1,
        forall|slot: int|
            0 <= slot < old(buffers)@.len() ==> (#[trigger] old(buffers)@[slot])@.len()
                == batch@.len(),
    ensures
        final(buffers)@.len() == old(buffers)@.len(),
        forall|slot: int|
            0 <= slot < final(buffers)@.len() ==> (#[trigger] final(buffers)@[slot])@.len()
                == batch@.len(),
        frames_of(final(buffers)@) == routed(mixer@, track, batch@, frames_of(old(buffers)@)),
{
    let ghost before = buffers@;
    match mixer.slot(track) {
        Some(slot) => {
            add_into(&mut buffers[slot], batch);
            proof {
                assert(buffers@[slot as int]@ =~= summed(before[slot as int]@, batch@));
                assert(frames_of(buffers@) =~= frames_of(before).update(
                    slot as int,
                    summed(before[slot as int]@, batch@),
                ));
            }
        },
        None => {},
    }
}

/// Brings a buffer to a length of `frames`: what lies beyond is cut off, and
/// what is missing is silence. A buffer of that length stays as it is.
pub fn fit(buffer: &mut Vec<Frame>, frames: usize)
    ensures
        final(buffer)@ == fitted(old(buffer)@, frames as nat),
        final(buffer)@.len() == frames,
        forall|f: int|
            0 <= f < frames && f < old(buffer)@.len() ==> final(buffer)@[f] == old(buffer)@[f],
        forall|f: int| old(buffer)@.len() <= f < frames ==> final(buffer)@[f] == Frame::zero(),
{
    let ghost before = buffer@;
    if buffer.len() > frames {
        buffer.truncate(frames);
    }
    while buffer.len() < frames
        invariant
            buffer@.len() <= frames,
            buffer@.len() < frames ==> before.len() <= buffer@.len(),
            forall|f: int| 0 <= f < buffer@.len() && f < before.len() ==> buffer@[f] == before[f],
            forall|f: int| before.len() <= f < buffer@.len() ==> buffer@[f] == Frame::zero(),
        decreases frames - buffer@.len(),
    {
        buffer.push(Frame::silence());
    }
    assert(buffer@ =~= fitted(before, frames as nat));
}

/// Adds a batch of frames to a buffer of the same length, frame by frame.
pub fn add_into(buffer: &mut Vec<Frame>, batch: &Vec<Frame>)
    requires
        old(buffer)@.len() == batch@.len(),
    ensures
        final(buffer)@.len() == old(buffer)@.len(),
        forall|f: int|
            0 <= f < batch@.len() ==> final(buffer)@[f] == old(buffer)@[f].mixed(batch@[f]),
{
    let ghost before = buffer@;
    let mut f: usize = 0;
    while f < batch.len()
        invariant
            f <= batch@.len(),
            buffer@.len() == batch@.len(),
            before.len() == batch@.len(),
            forall|g: int| 0 <= g < f ==> buffer@[g] == before[g].mixed(batch@[g]),
            forall|g: int| f <= g < batch@.len() ==> buffer@[g] == before[g],
        decreases batch@.len() - f,
    {
        let sum = buffer[f].mix(batch[f]);
        buffer.set(f, sum);
        f = f + 1;
    }
}

/// Owns the resources and produces the output.
pub struct Renderer<S, A> {
    parameters: Pool<Parameter>,
    clocks: Pool<Clock>,
    mixer: Mixer,
    sounds: Pool<PlayingSound<S>>,
    streams: Pool<AudioStreamWrapper<A>>,
    playback: Playback,
}

impl<S, A> View for Renderer<S, A> {
    type V = RendererView<S, A>;

    closed spec fn view(&self) -> RendererView<S, A> {
        RendererView {
            parameters: self.parameters@,
            parameter_room: self.parameters.room(),
            clocks: self.clocks@,
            clock_room: self.clocks.room(),
            mixer: self.mixer@,
            sounds: self.sounds@,
            sound_room: self.sounds.room(),
            streams: self.streams@,
            stream_room: self.streams.room(),
            playback: self.playback,
        }
    }
}

impl<S: Sound, A: AudioStream> Renderer<S, A> {
    /// What holds of every renderer that [`Renderer::new`] made: its pools
    /// and its mixer are in order.
    pub closed spec fn wf(self) -> bool {
        &&& self.parameters.wf()
        &&& self.clocks.wf()
        &&& self.mixer.wf()
        &&& self.sounds.wf()
        &&& self.streams.wf()
        &&& self.mixer@.room < usize::MAX
    }

    /// A renderer without resources that plays at full level.
    pub fn new(capacities: Capacities) -> (renderer: Self)
        requires
            capacities.sub_tracks < usize::MAX,
        ensures
            renderer.wf(),
            renderer@.parameters == Map::<u64, Parameter>::empty(),
            renderer@.parameter_room == capacities.parameters,
            renderer@.clocks == Map::<u64, Clock>::empty(),
            renderer@.clock_room == capacities.clocks,
            renderer@.mixer == MixerView::empty(capacities.sub_tracks as nat),
            renderer@.sounds == Map::<u64, PlayingSound<S>>::empty(),
            renderer@.sound_room == capacities.sounds,
            renderer@.streams == Map::<u64, AudioStreamWrapper<A>>::empty(),
            renderer@.stream_room == capacities.audio_streams,
            renderer@.playback == Playback::initial(),
    {
        Renderer {
            parameters: Pool::new(capacities.parameters),
            clocks: Pool::new(capacities.clocks),
            mixer: Mixer::new(capacities.sub_tracks),
            sounds: Pool::new(capacities.sounds),
            streams: Pool::new(capacities.audio_streams),
            playback: Playback::new(),
        }
    }

    /// The number of sounds that play.
    pub fn num_sounds(&self) -> (count: usize)
        requires
            self.wf(),
        ensures
            count == self@.sounds.len(),
    {
        self.sounds.len()
    }

    /// The current value of a parameter, if there is such a parameter.
    pub fn parameter_value(&self, id: ParameterId) -> (value: Option<i32>)
        requires
            self.wf(),
        ensures
            value == if self@.parameters.contains_key(id@) {
                Some(self@.parameters[id@].value)
            } else {
                None
            },
    {
        match self.parameters.get(id.index()) {
            Some(parameter) => Some(parameter.value()),
            None => None,
        }
    }

    /// The number of ticks that a clock has counted, if there is such a clock.
    pub fn clock_ticks(&self, id: ClockId) -> (ticks: Option<u64>)
        requires
            self.wf(),
        ensures
            ticks == if self@.clocks.contains_key(id@) {
                Some(self@.clocks[id@].ticks)
            } else {
                None
            },
    {
        match self.clocks.get(id.index()) {
            Some(clock) => Some(clock.ticks()),
            None => None,
        }
    }

    /// The playback of the renderer as a whole.
    pub fn playback(&self) -> (playback: Playback)
        ensures
            playback == self@.playback,
    {
        self.playback
    }

    /// Applies a command.
    pub fn apply(&mut self, command: Command<S, A>)
        requires
            old(self).wf(),
        ensures
            final(self).wf(),
            final(self)@ == old(self)@.applied(command),
    {
        match command {
            Command::Parameter(command) => {
                apply_parameter_command(&mut self.parameters, command);
            },
            Command::Mixer(command) => {
                proof {
                    lemma_mixer_keeps_room(self.mixer@, command);
                }
                apply_mixer_command(&mut self.mixer, command);
            },
            Command::Clock(command) => {
                apply_clock_command(&mut self.clocks, command);
            },
            Command::AudioStream(AudioStreamCommand::Add(id, stream)) => {
                let _ = self.streams.insert(id.index(), stream);
            },
            Command::Sound(SoundCommand::Play(id, sound)) => {
                let playing = PlayingSound { sound, track: id.default_track_index() };
                let _ = self.sounds.insert(id.index(), playing);
            },
            Command::Pause(tween) => {
                self.playback.pause(tween);
            },
            Command::Resume(tween) => {
                self.playback.resume_at(StartTime::Immediate, tween);
            },
        }
    }

    /// Lets `dt` microseconds pass for the parameters, the clocks and the
    /// playback of the renderer as a whole.
    pub fn advance(&mut self, dt: u64)
        requires
            old(self).wf(),
        ensures
            final(self).wf(),
            final(self)@ == old(self)@.advanced(dt),
    {
        let ghost before = self@;
        self.parameters.advance_all(dt, &());
        assert(self.parameters@ =~= before.parameters_later(dt));
        self.clocks.advance_all(dt, &self.parameters);
        assert(self.clocks@ =~= before.clocks_later(dt));
        let info = Info::new(&self.clocks);
        self.playback.update(dt, &info);
    }

    /// Tells every sound that a batch of audio is about to be asked for:
    /// every sound of the pool is, once, what its `on_start_processing` has
    /// made of it. Every sound stays in its slot and on its track.
    fn start_sounds(sounds: &mut Pool<PlayingSound<S>>)
        requires
            old(sounds).wf(),
        ensures
            final(sounds).wf(),
            final(sounds).room() == old(sounds).room(),
            final(sounds)@.dom() == old(sounds)@.dom(),
            forall|j: int| final(sounds).id_at(j) == old(sounds).id_at(j),
            forall|id: u64| #[trigger]
                final(sounds)@.contains_key(id) ==> old(sounds)@[id].track
                    == final(sounds)@[id].track,
            forall|id: u64| #[trigger]
                final(sounds)@.contains_key(id) ==> exists|r: &mut S|
                    mut_ref_current(r) == old(sounds)@[id].sound
                        && mut_ref_future(r) == final(sounds)@[id].sound
                        && #[trigger] call_ensures(S::on_start_processing, (r,), ()),
    {
        let ghost before = *sounds;
        let slots = sounds.capacity();
        let mut i: usize = 0;
        while i < slots
            invariant
                sounds.wf(),
                before.wf(),
                sounds.room() == slots,
                before.room() == slots,
                i <= slots,
                sounds@.dom() == before@.dom(),
                forall|j: int| sounds.id_at(j) == before.id_at(j),
                forall|j: int|
                    i <= j < slots && (#[trigger] before.id_at(j)) is Some ==> sounds@[before.id_at(
                        j,
                    ).unwrap()] == before@[before.id_at(j).unwrap()],
                forall|j: int|
                    0 <= j < i && (#[trigger] before.id_at(j)) is Some ==> sounds@[before.id_at(
                        j,
                    ).unwrap()].track == before@[before.id_at(j).unwrap()].track,
                forall|j: int|
                    0 <= j < i && (#[trigger] before.id_at(j)) is Some ==> exists|r: &mut S|
                        mut_ref_current(r) == before@[before.id_at(j).unwrap()].sound
                            && mut_ref_future(r) == sounds@[before.id_at(j).unwrap()].sound
                            && #[trigger] call_ensures(S::on_start_processing, (r,), ()),
            decreases slots - i,
        {
            let ghost held = *sounds;
            proof {
                held.lemma_slots();
            }
            match sounds.value_at_mut(i) {
                Some(playing) => {
                    playing.sound.on_start_processing();
                },
                None => {},
            }
            proof {
                assert(sounds@.dom() =~= before@.dom());
                assert forall|j: int|
                    j != i && (#[trigger] before.id_at(j)) is Some implies sounds@[before.id_at(
                    j,
                ).unwrap()] == held@[before.id_at(j).unwrap()] by {
                    assert(held.id_at(j) == before.id_at(j));
                    assert(held.id_at(i as int) == before.id_at(i as int));
                }
            }
            i = i + 1;
        }
        proof {
            before.lemma_slots();
            assert forall|id: u64| #[trigger] sounds@.contains_key(id) implies sounds@[id].track
                == before@[id].track && exists|r: &mut S|
                mut_ref_current(r) == before@[id].sound && mut_ref_future(r) == sounds@[id].sound
                    && #[trigger] call_ensures(S::on_start_processing, (r,), ()) by {
                let j = choose|j: int| 0 <= j < before.room() && before.id_at(j) == Some(id);
                assert(before.id_at(j) is Some);
            }
        }
    }

    /// Lets every sound produce its batch and adds it to the buffer of the
    /// sound's track. What a sound sends to a track that is not there is
    /// lost.
    ///
    /// Slot by slot, every sound is, once, what its `process` has made of it
    /// on a buffer of `frames` frames of silence. What it has left in that
    /// buffer, brought to a length of `frames`, is its batch. The buffers are
    /// what they were, with these batches sent to the tracks of the sounds in
    /// the order of the slots. Every sound stays in its slot and on its
    /// track.
    fn process_sounds(
        sounds: &mut Pool<PlayingSound<S>>,
        mixer: &Mixer,
        info: &Info,
        dt: u64,
        buffers: &mut Vec<Vec<Frame>>,
        frames: usize,
    )
        requires
            old(sounds).wf(),
            mixer.wf(),
            info.wf(),
            old(buffers)@.len() == mixer@.tracks.len() + 1,
            forall|slot: int|
                0 <= slot < old(buffers)@.len() ==> (#[trigger] old(buffers)@[slot])@.len()
                    == frames,
        ensures
            final(sounds).wf(),
            final(sounds).room() == old(sounds).room(),
            final(sounds)@.dom() == old(sounds)@.dom(),
            forall|j: int| final(sounds).id_at(j) == old(sounds).id_at(j),
            forall|id: u64| #[trigger]
                final(sounds)@.contains_key(id) ==> old(sounds)@[id].track
                    == final(sounds)@[id].track,
            final(buffers)@.len() == old(buffers)@.len(),
            forall|slot: int|
                0 <= slot < final(buffers)@.len() ==> (#[trigger] final(buffers)@[slot])@.len()
                    == frames,
            exists|batches: Seq<Seq<Frame>>|
                {
                    &&& batches.len() == old(sounds).room()
                    &&& frames_of(final(buffers)@) == #[trigger] gathered(
                        mixer@,
                        sound_tracks(*old(sounds)),
                        batches,
                        frames_of(old(buffers)@),
                        old(sounds).room() as int,
                    )
                    &&& forall|j: int|
                        0 <= j < old(sounds).room() && (#[trigger] old(sounds).id_at(j)) is Some
                            ==> exists|r: &mut S, o: &mut Vec<Frame>|
                            mut_ref_current(r) == old(sounds)@[old(sounds).id_at(j).unwrap()].sound
                                && mut_ref_future(r) == final(sounds)@[old(sounds).id_at(
                                j,
                            ).unwrap()].sound && mut_ref_current(o)@ == silent(frames as nat)
                                && fitted(mut_ref_future(o)@, frames as nat) == batches[j]
                                && #[trigger] call_ensures(S::process, (r, o, dt, info), ())
                },
    {
        let ghost before = *sounds;
        let ghost start = frames_of(buffers@);
        let ghost mut batches: Seq<Seq<Frame>> = Seq::empty();
        let slots = sounds.capacity();
        let mut batch: Vec<Frame> = Vec::new();
        let mut i: usize = 0;
        while i < slots
            invariant
                sounds.wf(),
                before.wf(),
                mixer.wf(),
                info.wf(),
                sounds.room() == slots,
                before.room() == slots,
                i <= slots,
                sounds@.dom() == before@.dom(),
                forall|j: int| sounds.id_at(j) == before.id_at(j),
                forall|j: int|
                    i <= j < slots && (#[trigger] before.id_at(j)) is Some ==> sounds@[before.id_at(
                        j,
                    ).unwrap()] == before@[before.id_at(j).unwrap()],
                forall|j: int|
                    0 <= j < i && (#[trigger] before.id_at(j)) is Some ==> sounds@[before.id_at(
                        j,
                    ).unwrap()].track == before@[before.id_at(j).unwrap()].track,
                buffers@.len() == mixer@.tracks.len() + 1,
                forall|slot: int|
                    0 <= slot < buffers@.len() ==> (#[trigger] buffers@[slot])@.len() == frames,
                batches.len() == i,
                frames_of(buffers@) == gathered(
                    mixer@,
                    sound_tracks(before),
                    batches,
                    start,
                    i as int,
                ),
                forall|j: int|
                    0 <= j < i && (#[trigger] before.id_at(j)) is Some ==> exists|
                        r: &mut S,
                        o: &mut Vec<Frame>,
                    |
                        mut_ref_current(r) == before@[before.id_at(j).unwrap()].sound
                            && mut_ref_future(r) == sounds@[before.id_at(j).unwrap()].sound
                            && mut_ref_current(o)@ == silent(frames as nat) && fitted(
                            mut_ref_future(o)@,
                            frames as nat,
                        ) == batches[j] && #[trigger] call_ensures(
                            S::process,
                            (r, o, dt, info),
                            (),
                        ),
            decreases slots - i,
        {
            let ghost held = *sounds;
            let ghost sent = batches;
            proof {
                held.lemma_slots();
            }
            batch.clear();
            fit(&mut batch, frames);
            assert(batch@ =~= silent(frames as nat));
            let mut target: Option<TrackIndex> = None;
            match sounds.value_at_mut(i) {
                Some(playing) => {
                    playing.sound.process(&mut batch, dt, info);
                    target = Some(playing.track);
                },
                None => {},
            }
            fit(&mut batch, frames);
            proof {
                batches = sent.push(batch@);
                lemma_gathered_prefix(
                    mixer@,
                    sound_tracks(before),
                    sent,
                    batches,
                    start,
                    i as int,
                );
                assert(sounds@.dom() =~= before@.dom());
                assert(held.id_at(i as int) == before.id_at(i as int));
                assert forall|j: int|
                    j != i && (#[trigger] before.id_at(j)) is Some implies sounds@[before.id_at(
                    j,
                ).unwrap()] == held@[before.id_at(j).unwrap()] by {
                    assert(held.id_at(j) == before.id_at(j));
                }
            }
            match target {
                Some(track) => {
                    route(mixer, track, &batch, buffers);
                },
                None => {},
            }
            i = i + 1;
        }
        proof {
            before.lemma_slots();
            assert forall|id: u64| #[trigger] sounds@.contains_key(id) implies before@[id].track
                == sounds@[id].track by {
                let j = choose|j: int| 0 <= j < before.room() && before.id_at(j) == Some(id);
                assert(before.id_at(j) is Some);
            }
        }
    }

    /// Lets every audio stream produce its batch and adds it to the buffer
    /// of the stream's track.
    ///
    /// Slot by slot, every stream is, once, what its `process` has made of
    /// it on a buffer of `frames` frames of silence. What it has left in that
    /// buffer, brought to a length of `frames`, is its batch. The buffers are
    /// what they were, with these batches sent to the tracks of the streams
    /// in the order of the slots. Every stream stays in its slot and on its
    /// track.
    fn process_streams(
        streams: &mut Pool<AudioStreamWrapper<A>>,
        mixer: &Mixer,
        dt: u64,
        buffers: &mut Vec<Vec<Frame>>,
        frames: usize,
    )
        requires
            old(streams).wf(),
            mixer.wf(),
            old(buffers)@.len() == mixer@.tracks.len() + 1,
            forall|slot: int|
                0 <= slot < old(buffers)@.len() ==> (#[trigger] old(buffers)@[slot])@.len()
                    == frames,
        ensures
            final(streams).wf(),
            final(streams).room() == old(streams).room(),
            final(streams)@.dom() == old(streams)@.dom(),
            forall|j: int| final(streams).id_at(j) == old(streams).id_at(j),
            forall|id: u64| #[trigger]
                final(streams)@.contains_key(id) ==> old(streams)@[id].track
                    == final(streams)@[id].track,
            final(buffers)@.len() == old(buffers)@.len(),
            forall|slot: int|
                0 <= slot < final(buffers)@.len() ==> (#[trigger] final(buffers)@[slot])@.len()
                    == frames,
            exists|batches: Seq<Seq<Frame>>|
                {
                    &&& batches.len() == old(streams).room()
                    &&& frames_of(final(buffers)@) == #[trigger] gathered(
                        mixer@,
                        stream_tracks(*old(streams)),
                        batches,
                        frames_of(old(buffers)@),
                        old(streams).room() as int,
                    )
                    &&& forall|j: int|
                        0 <= j < old(streams).room() && (#[trigger] old(streams).id_at(j)) is Some
                            ==> exists|r: &mut A, o: &mut Vec<Frame>|
                            mut_ref_current(r) == old(streams)@[old(streams).id_at(
                                j,
                            ).unwrap()].stream && mut_ref_future(r) == final(
                                streams)@[old(streams).id_at(j).unwrap()].stream
                                && mut_ref_current(o)@ == silent(frames as nat) && fitted(
                                mut_ref_future(o)@,
                                frames as nat,
                            ) == batches[j] && #[trigger] call_ensures(A::process, (r, o, dt), ())
                },
    {
        let ghost before = *streams;
        let ghost start = frames_of(buffers@);
        let ghost mut batches: Seq<Seq<Frame>> = Seq::empty();
        let slots = streams.capacity();
        let mut batch: Vec<Frame> = Vec::new();
        let mut i: usize = 0;
        while i < slots
            invariant
                streams.wf(),
                before.wf(),
                mixer.wf(),
                streams.room() == slots,
                before.room() == slots,
                i <= slots,
                streams@.dom() == before@.dom(),
                forall|j: int| streams.id_at(j) == before.id_at(j),
                forall|j: int|
                    i <= j < slots && (#[trigger] before.id_at(j)) is Some
                        ==> streams@[before.id_at(j).unwrap()] == before@[before.id_at(
                        j,
                    ).unwrap()],
                forall|j: int|
                    0 <= j < i && (#[trigger] before.id_at(j)) is Some ==> streams@[before.id_at(
                        j,
                    ).unwrap()].track == before@[before.id_at(j).unwrap()].track,
                buffers@.len() == mixer@.tracks.len() + 1,
                forall|slot: int|
                    0 <= slot < buffers@.len() ==> (#[trigger] buffers@[slot])@.len() == frames,
                batches.len() == i,
                frames_of(buffers@) == gathered(
                    mixer@,
                    stream_tracks(before),
                    batches,
                    start,
                    i as int,
                ),
                forall|j: int|
                    0 <= j < i && (#[trigger] before.id_at(j)) is Some ==> exists|
                        r: &mut A,
                        o: &mut Vec<Frame>,
                    |
                        mut_ref_current(r) == before@[before.id_at(j).unwrap()].stream
                            && mut_ref_future(r) == streams@[before.id_at(j).unwrap()].stream
                            && mut_ref_current(o)@ == silent(frames as nat) && fitted(
                            mut_ref_future(o)@,
                            frames as nat,
                        ) == batches[j] && #[trigger] call_ensures(A::process, (r, o, dt), ()),
            decreases slots - i,
        {
            let ghost held = *streams;
            let ghost sent = batches;
            proof {
                held.lemma_slots();
            }
            batch.clear();
            fit(&mut batch, frames);
            assert(batch@ =~= silent(frames as nat));
            let mut target: Option<TrackIndex> = None;
            match streams.value_at_mut(i) {
                Some(wrapper) => {
                    wrapper.stream.process(&mut batch, dt);
                    target = Some(wrapper.track);
                },
                None => {},
            }
            fit(&mut batch, frames);
            proof {
                batches = sent.push(batch@);
                lemma_gathered_prefix(
                    mixer@,
                    stream_tracks(before),
                    sent,
                    batches,
                    start,
                    i as int,
                );
                assert(streams@.dom() =~= before@.dom());
                assert(held.id_at(i as int) == before.id_at(i as int));
                assert forall|j: int|
                    j != i && (#[trigger] before.id_at(j)) is Some implies streams@[before.id_at(
                    j,
                ).unwrap()] == held@[before.id_at(j).unwrap()] by {
                    assert(held.id_at(j) == before.id_at(j));
                }
            }
            match target {
                Some(track) => {
                    route(mixer, track, &batch, buffers);
                },
                None => {},
            }
            i = i + 1;
        }
        proof {
            before.lemma_slots();
            assert forall|id: u64| #[trigger] streams@.contains_key(id) implies before@[id].track
                == streams@[id].track by {
                let j = choose|j: int| 0 <= j < before.room() && before.id_at(j) == Some(id);
                assert(before.id_at(j) is Some);
            }
        }
    }

    /// Takes every sound that says it is finished out of the pool. Returns
    /// the indices of the identifiers of these sounds, each of them once.
    ///
    /// Every sound is asked once. Those that answered `true` are the ones
    /// that left, and those that answered `false` are the ones that stayed,
    /// as they were.
    fn reclaim(sounds: &mut Pool<PlayingSound<S>>) -> (reclaimed: Vec<u64>)
        requires
            old(sounds).wf(),
        ensures
            final(sounds).wf(),
            final(sounds).room() == old(sounds).room(),
            reclaimed@.no_duplicates(),
            forall|k: int|
                0 <= k < reclaimed@.len() ==> call_ensures(
                    S::finished,
                    (&old(sounds)@[#[trigger] reclaimed@[k]].sound,),
                    true,
                ),
            forall|id: u64| #[trigger]
                final(sounds)@.contains_key(id) ==> call_ensures(
                    S::finished,
                    (&final(sounds)@[id].sound,),
                    false,
                ),
            forall|id: u64| #[trigger]
                final(sounds)@.contains_key(id) ==> old(sounds)@.contains_key(id)
                    && !reclaimed@.contains(id),
            forall|id: u64| #[trigger]
                old(sounds)@.contains_key(id) ==> final(sounds)@.contains_key(id)
                    || reclaimed@.contains(id),
            forall|id: u64|
                final(sounds)@.contains_key(id) ==> final(sounds)@[id] == old(sounds)@[id],
            forall|k: int|
                0 <= k < reclaimed@.len() ==> old(sounds)@.contains_key(#[trigger] reclaimed@[k]),
    {
        let ghost before = sounds@;
        let slots = sounds.capacity();
        let mut reclaimed: Vec<u64> = Vec::new();
        let mut i: usize = 0;
        while i < slots
            invariant
                sounds.wf(),
                sounds.room() == slots,
                i <= slots,
                reclaimed@.no_duplicates(),
                forall|k: int|
                    0 <= k < reclaimed@.len() ==> call_ensures(
                        S::finished,
                        (&before[#[trigger] reclaimed@[k]].sound,),
                        true,
                    ),
                forall|j: int|
                    0 <= j < i && (#[trigger] sounds.id_at(j)) is Some ==> call_ensures(
                        S::finished,
                        (&sounds@[sounds.id_at(j).unwrap()].sound,),
                        false,
                    ),
                forall|id: u64| #[trigger]
                    sounds@.contains_key(id) ==> before.contains_key(id) && !reclaimed@.contains(
                        id,
                    ),
                forall|id: u64| #[trigger]
                    before.contains_key(id) ==> sounds@.contains_key(id) || reclaimed@.contains(
                        id,
                    ),
                forall|id: u64| sounds@.contains_key(id) ==> sounds@[id] == before[id],
                forall|k: int|
                    0 <= k < reclaimed@.len() ==> before.contains_key(#[trigger] reclaimed@[k]),
            decreases slots - i,
        {
            let finished = match sounds.value_at(i) {
                Some(playing) => playing.sound.finished(),
                None => false,
            };
            let ghost pool = *sounds;
            proof {
                pool.lemma_slots();
            }
            if finished {
                let ghost held = sounds@;
                let ghost listed = reclaimed@;
                match sounds.remove_at(i) {
                    Some(removed) => {
                        reclaimed.push(removed.0);
                        proof {
                            let gone = removed.0;
                            assert(reclaimed@[listed.len() as int] == gone);
                            assert(before.contains_key(gone));
                            assert(held[gone] == before[gone]);
                            assert(!listed.contains(gone));
                            assert forall|a: int, b: int|
                                0 <= a < reclaimed@.len() && 0 <= b < reclaimed@.len() && a
                                    != b implies reclaimed@[a] != reclaimed@[b] by {
                                if a < listed.len() {
                                    assert(listed[a] == reclaimed@[a]);
                                    assert(listed.contains(reclaimed@[a]));
                                }
                                if b < listed.len() {
                                    assert(listed[b] == reclaimed@[b]);
                                    assert(listed.contains(reclaimed@[b]));
                                }
                            }
                            assert forall|k: int| 0 <= k < reclaimed@.len() implies call_ensures(
                                S::finished,
                                (&before[#[trigger] reclaimed@[k]].sound,),
                                true,
                            ) by {
                                if k < listed.len() {
                                    assert(listed[k] == reclaimed@[k]);
                                }
                            }
                            assert forall|j: int|
                                0 <= j < i + 1 && (#[trigger] sounds.id_at(j))
                                    is Some implies call_ensures(
                                S::finished,
                                (&sounds@[sounds.id_at(j).unwrap()].sound,),
                                false,
                            ) by {
                                assert(pool.id_at(j) == sounds.id_at(j));
                                assert(pool.id_at(j) != pool.id_at(i as int));
                            }
                            assert forall|id: u64| #[trigger]
                                sounds@.contains_key(id) implies before.contains_key(id)
                                && !reclaimed@.contains(id) by {
                                assert(held.contains_key(id));
                                if reclaimed@.contains(id) {
                                    let k = choose|k: int|
                                        0 <= k < reclaimed@.len() && reclaimed@[k] == id;
                                    assert(listed[k] == id);
                                }
                            }
                            assert forall|id: u64| #[trigger]
                                before.contains_key(id) implies sounds@.contains_key(id)
                                || reclaimed@.contains(id) by {
                                if listed.contains(id) {
                                    let k = choose|k: int|
                                        0 <= k < listed.len() && listed[k] == id;
                                    assert(reclaimed@[k] == id);
                                }
                            }
                        }
                    },
                    None => {},
                }
            }
            i = i + 1;
        }
        proof {
            sounds.lemma_slots();
            assert forall|id: u64| #[trigger] sounds@.contains_key(id) implies call_ensures(
                S::finished,
                (&sounds@[id].sound,),
                false,
            ) by {
                let j = choose|j: int| 0 <= j < sounds.room() && sounds.id_at(j) == Some(id);
                assert(sounds.id_at(j) is Some);
            }
        }
        reclaimed
    }

    /// Runs one render tick of `dt` microseconds and fills `out` with the
    /// batch of output for it.
    ///
    /// In this order: the commands that wait in the queue are applied, the
    /// first one first; every sound is told that a batch is about to be asked
    /// for; the parameters, the clocks and the playback of the renderer move
    /// on by `dt`; unless the renderer is paused, every sound and every audio
    /// stream produces its batch into the buffer of its track; the mixer
    /// brings the buffers together at the level of the renderer's playback;
    /// the sounds that are finished leave the renderer. Returned are the
    /// indices of the identifiers of the sounds that left.
    ///
    /// What the sounds and the audio streams produce is up to them, and so
    /// is which sounds are finished. Whatever they do, the output is what the
    /// mixer makes of one buffer for every track, and nothing but silence
    /// while the renderer is paused; a batch that a sound leaves at another
    /// length than that of `out` is cut, or filled up with silence.
    pub fn render(
        &mut self,
        queue: &mut CommandQueue<Command<S, A>>,
        dt: u64,
        out: &mut Vec<Frame>,
    ) -> (reclaimed: Vec<u64>)
        requires
            old(self).wf(),
            old(queue).wf(),
        ensures
            final(self).wf(),
            final(queue).wf(),
            final(queue).room() == old(queue).room(),
            final(queue)@ == Seq::<Command<S, A>>::empty(),
            final(out)@.len() == old(out)@.len(),
            final(self)@.same_settings(old(self)@.applied_all(old(queue)@).advanced(dt)),
            final(self)@.streams.dom() == old(self)@.applied_all(old(queue)@).streams.dom(),
            forall|id: u64| #[trigger]
                final(self)@.sounds.contains_key(id) ==> old(self)@.applied_all(
                    old(queue)@,
                ).sounds.contains_key(id) && !reclaimed@.contains(id),
            forall|id: u64| #[trigger]
                old(self)@.applied_all(old(queue)@).sounds.contains_key(id) ==> reclaimed@.contains(
                    id,
                ) || final(self)@.sounds.contains_key(id),
            forall|k: int|
                0 <= k < reclaimed@.len() ==> old(self)@.applied_all(
                    old(queue)@,
                ).sounds.contains_key(#[trigger] reclaimed@[k]),
            forall|id: u64| #[trigger]
                final(self)@.sounds.contains_key(id) ==> call_ensures(
                    S::finished,
                    (&final(self)@.sounds[id].sound,),
                    false,
                ),
            !final(self)@.playback.state.advancing() ==> forall|f: int|
                0 <= f < final(out)@.len() ==> final(out)@[f] == Frame::zero(),
            exists|buffers: Seq<Vec<Frame>>| #[trigger] final(self)@.mixes(buffers, final(out)@),
    {
        let ghost start = self@;
        let ghost queued = queue@;
        let waiting = queue.len();
        let mut taken: usize = 0;
        while taken < waiting
            invariant
                self.wf(),
                queue.wf(),
                queue.room() == old(queue).room(),
                taken <= waiting,
                waiting == queued.len(),
                queue@ == queued.skip(taken as int),
                self@ == start.applied_all(queued.take(taken as int)),
            decreases waiting - taken,
        {
            match queue.try_recv() {
                Some(command) => {
                    proof {
                        assert(queued.take(taken + 1).drop_last() =~= queued.take(taken as int));
                        assert(queued.take(taken + 1).last() == command);
                        assert(queued.skip(taken as int).drop_first() =~= queued.skip(taken + 1));
                    }
                    self.apply(command);
                },
                None => {},
            }
            taken = taken + 1;
        }
        proof {
            assert(queued.take(taken as int) =~= queued);
            assert(queue@ =~= Seq::<Command<S, A>>::empty());
        }
        let ghost applied = self@;
        Self::start_sounds(&mut self.sounds);
        self.advance(dt);
        let frames = out.len();
        let rows = self.mixer.num_sub_tracks() + 1;
        let mut buffers: Vec<Vec<Frame>> = Vec::new();
        let mut row: usize = 0;
        while row < rows
            invariant
                row <= rows,
                buffers@.len() == row,
                forall|slot: int|
                    0 <= slot < buffers@.len() ==> (#[trigger] buffers@[slot])@.len() == frames,
            decreases rows - row,
        {
            buffers.push(silent_buffer(frames));
            row = row + 1;
        }
        let advancing = self.playback.state().is_advancing();
        if advancing {
            let info = Info::new(&self.clocks);
            Self::process_sounds(&mut self.sounds, &self.mixer, &info, dt, &mut buffers, frames);
            Self::process_streams(&mut self.streams, &self.mixer, dt, &mut buffers, frames);
        }
        let levels = self.mixer.levels(&self.parameters);
        let gain = if advancing {
            self.playback.amplitude()
        } else {
            0
        };
        self.mixer.mix_buffers(&levels, &buffers, gain, out);
        proof {
            if !advancing {
                assert forall|f: int| 0 <= f < out@.len() implies out@[f] == Frame::zero() by {
                    self.mixer@.mixed(levels@, column(buffers@, f)).lemma_silenced(
                        0,
                    );
                }
            }
        }
        assert(self@.sounds.dom() == applied.sounds.dom());
        assert(self@.mixes(buffers@, out@));
        let reclaimed = Self::reclaim(&mut self.sounds);
        assert(self@.mixes(buffers@, out@));
        reclaimed
    }
}

/// No command changes the number of sub-tracks that a mixer has room for.
proof fn lemma_mixer_keeps_room(mixer: MixerView, command: MixerCommand)
    ensures
        mixer_after(mixer, command).room == mixer.room,
{
}

} // verus!
