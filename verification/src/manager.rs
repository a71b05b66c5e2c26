//! The control side: it makes the identifiers of new resources, keeps count
//! of the room that the renderer has left, and sends the commands.
//!
//! The audio manager never touches what the renderer owns. What it hands
//! back is decided at once: a resource for which there is no room is turned
//! down with the error of its kind, and so is a command for which the queue
//! has no room.

use crate::audio_stream::AudioStreamWrapper;
use crate::clock::Clock;
use crate::command::{
    has_room, sent, AudioStreamCommand, ClockCommand, Command, CommandQueue, MixerCommand,
    ParameterCommand, SoundCommand,
};
use crate::error::{
    AddAudioStreamError, AddClockError, AddParameterError, AddSubTrackError, CommandError,
    PlaySoundError,
};
use crate::id::{
    AudioStreamId, ClockId, IdAllocator, IdKind, ParameterId, SoundId, SubTrackId, TrackIndex,
};
use crate::mixer::Track;
use crate::parameter::Parameter;
use crate::renderer::Capacities;
use crate::sound::Metadata;
use crate::tween::Tween;
use crate::value::Value;
use vstd::prelude::*;

verus! {

/// Makes resources and hands them to the renderer.
pub struct AudioManager {
    ids: IdAllocator,
    capacities: Capacities,
    sounds: usize,
    parameters: usize,
    sub_tracks: usize,
    clocks: usize,
    audio_streams: usize,
}

impl AudioManager {
    /// The number of identifiers of a kind that were made so far.
    pub closed spec fn issued(self, kind: IdKind) -> nat {
        self.ids.issued(kind)
    }

    /// The number of resources of a kind that the renderer was sent and, as
    /// far as the manager knows, still holds.
    pub closed spec fn count(self, kind: IdKind) -> nat {
        match kind {
            IdKind::Sound => self.sounds as nat,
            IdKind::Parameter => self.parameters as nat,
            IdKind::SubTrack => self.sub_tracks as nat,
            IdKind::Clock => self.clocks as nat,
            IdKind::AudioStream => self.audio_streams as nat,
        }
    }

    /// The number of resources of a kind that the renderer has room for.
    pub closed spec fn room(self, kind: IdKind) -> nat {
        match kind {
            IdKind::Sound => self.capacities.sounds as nat,
            IdKind::Parameter => self.capacities.parameters as nat,
            IdKind::SubTrack => self.capacities.sub_tracks as nat,
            IdKind::Clock => self.capacities.clocks as nat,
            IdKind::AudioStream => self.capacities.audio_streams as nat,
        }
    }

    /// What an attempt to add a resource of a kind does to the manager.
    ///
    /// Nothing, where there is no room for the resource. Else an identifier
    /// is used up, and the resource is counted if the queue took the command.
    /// The counts of the other kinds stay as they are.
    pub open spec fn after_adding(self, after: AudioManager, kind: IdKind, sent: bool) -> bool {
        &&& forall|k: IdKind| after.room(k) == self.room(k)
        &&& forall|k: IdKind|
            k != kind ==> after.count(k) == self.count(k) && after.issued(k) == self.issued(k)
        &&& if self.count(kind) >= self.room(kind) {
            after.count(kind) == self.count(kind) && after.issued(kind) == self.issued(kind)
        } else {
            after.issued(kind) == self.issued(kind) + 1 && after.count(kind) == self.count(kind)
                + if sent {
                1nat
            } else {
                0nat
            }
        }
    }

    /// A manager for a renderer with the given capacities.
    pub fn new(capacities: Capacities) -> (manager: Self)
        ensures
            forall|kind: IdKind| manager.issued(kind) == 0 && manager.count(kind) == 0,
            manager.room(IdKind::Sound) == capacities.sounds,
            manager.room(IdKind::Parameter) == capacities.parameters,
            manager.room(IdKind::SubTrack) == capacities.sub_tracks,
            manager.room(IdKind::Clock) == capacities.clocks,
            manager.room(IdKind::AudioStream) == capacities.audio_streams,
    {
        AudioManager {
            ids: IdAllocator::new(),
            capacities,
            sounds: 0,
            parameters: 0,
            sub_tracks: 0,
            clocks: 0,
            audio_streams: 0,
        }
    }

    /// Whether an identifier of a kind is left to be made.
    pub fn can_issue(&self, kind: IdKind) -> (left: bool)
        ensures
            left == (self.issued(kind) < u64::MAX),
    {
        self.ids.issued_count(kind) < u64::MAX
    }

    /// The number of resources of a kind that the renderer was sent and, as
    /// far as the manager knows, still holds.
    pub fn num(&self, kind: IdKind) -> (count: usize)
        ensures
            count == self.count(kind),
    {
        match kind {
            IdKind::Sound => self.sounds,
            IdKind::Parameter => self.parameters,
            IdKind::SubTrack => self.sub_tracks,
            IdKind::Clock => self.clocks,
            IdKind::AudioStream => self.audio_streams,
        }
    }

    /// Takes note that the renderer has let go of `count` sounds, so that
    /// there is room for as many new ones.
    pub fn sounds_reclaimed(&mut self, count: usize)
        ensures
            final(self).count(IdKind::Sound) == if count >= old(self).count(IdKind::Sound) {
                0
            } else {
                old(self).count(IdKind::Sound) - count
            },
            forall|kind: IdKind| final(self).room(kind) == old(self).room(kind),
            forall|kind: IdKind| final(self).issued(kind) == old(self).issued(kind),
            forall|kind: IdKind|
                kind != IdKind::Sound ==> final(self).count(kind) == old(self).count(kind),
    {
        if count >= self.sounds {
            self.sounds = 0;
        } else {
            self.sounds = self.sounds - count;
        }
    }

    /// Sends a sound to the renderer to be played, and returns its
    /// identifier.
    ///
    /// This fails with `SoundLimitReached` where as many sounds play as the
    /// renderer has room for, and with `CommandError` where there is room
    /// for the sound and none in the queue. Where it fails, nothing is sent.
    pub fn play<S, A>(
        &mut self,
        queue: &mut CommandQueue<Command<S, A>>,
        sound: S,
        duration: u64,
        track: TrackIndex,
        metadata: Metadata,
    ) -> (result: Result<SoundId, PlaySoundError>)
        requires
            old(queue).wf(),
            old(self).issued(IdKind::Sound) < u64::MAX,
        ensures
            final(queue).wf(),
            final(queue).room() == old(queue).room(),
            old(self).after_adding(
                *final(self),
                IdKind::Sound,
                has_room(old(queue)@, old(queue).room()),
            ),
            match result {
                Ok(id) => {
                    &&& old(self).count(IdKind::Sound) < old(self).room(IdKind::Sound)
                    &&& has_room(old(queue)@, old(queue).room())
                    &&& id@ == old(self).issued(IdKind::Sound)
                    &&& id.duration_micros() == duration
                    &&& id.default_track() == track
                    &&& id.metadata_held() == metadata
                    &&& final(queue)@ == old(queue)@.push(
                        Command::Sound(SoundCommand::Play(id, sound)),
                    )
                },
                Err(PlaySoundError::SoundLimitReached) => {
                    &&& old(self).count(IdKind::Sound) >= old(self).room(IdKind::Sound)
                    &&& final(queue)@ == old(queue)@
                },
                Err(PlaySoundError::CommandError(error)) => {
                    &&& old(self).count(IdKind::Sound) < old(self).room(IdKind::Sound)
                    &&& !has_room(old(queue)@, old(queue).room())
                    &&& error == CommandError::QueueFull
                    &&& final(queue)@ == old(queue)@
                },
            },
    {
        if self.sounds >= self.capacities.sounds {
            return Err(PlaySoundError::SoundLimitReached);
        }
        proof {
            self.ids.lemma_issue(IdKind::Sound);
        }
        let id = SoundId::new(&mut self.ids, duration, track, metadata);
        match queue.send(Command::Sound(SoundCommand::Play(id, sound))) {
            Ok(()) => {
                self.sounds = self.sounds + 1;
                Ok(id)
            },
            Err(error) => Err(PlaySoundError::from(error)),
        }
    }

    /// Sends a new parameter to the renderer, and returns its identifier.
    ///
    /// This fails with `ParameterLimitReached` where the renderer has no
    /// room for another parameter, and with `CommandError` where there is
    /// room for the parameter and none in the queue. Where it fails, nothing
    /// is sent.
    pub fn add_parameter<S, A>(
        &mut self,
        queue: &mut CommandQueue<Command<S, A>>,
        value: i32,
    ) -> (result: Result<ParameterId, AddParameterError>)
        requires
            old(queue).wf(),
            old(self).issued(IdKind::Parameter) < u64::MAX,
        ensures
            final(queue).wf(),
            final(queue).room() == old(queue).room(),
            old(self).after_adding(
                *final(self),
                IdKind::Parameter,
                has_room(old(queue)@, old(queue).room()),
            ),
            match result {
                Ok(id) => {
                    &&& old(self).count(IdKind::Parameter) < old(self).room(IdKind::Parameter)
                    &&& has_room(old(queue)@, old(queue).room())
                    &&& id@ == old(self).issued(IdKind::Parameter)
                    &&& final(queue)@ == old(queue)@.push(
                        Command::Parameter(
                            ParameterCommand::Add(
                                id,
                                Parameter { value, transition: None, paused: false },
                            ),
                        ),
                    )
                },
                Err(AddParameterError::ParameterLimitReached) => {
                    &&& old(self).count(IdKind::Parameter) >= old(self).room(IdKind::Parameter)
                    &&& final(queue)@ == old(queue)@
                },
                Err(AddParameterError::CommandError(error)) => {
                    &&& old(self).count(IdKind::Parameter) < old(self).room(IdKind::Parameter)
                    &&& !has_room(old(queue)@, old(queue).room())
                    &&& error == CommandError::QueueFull
                    &&& final(queue)@ == old(queue)@
                },
            },
    {
        if self.parameters >= self.capacities.parameters {
            return Err(AddParameterError::ParameterLimitReached);
        }
        proof {
            self.ids.lemma_issue(IdKind::Parameter);
        }
        let id = ParameterId::new(&mut self.ids);
        match queue.send(Command::Parameter(ParameterCommand::Add(id, Parameter::new(value)))) {
            Ok(()) => {
                self.parameters = self.parameters + 1;
                Ok(id)
            },
            Err(error) => Err(AddParameterError::from(error)),
        }
    }

    /// Sends a new mixer sub-track to the renderer, and returns its
    /// identifier.
    ///
    /// This fails with `SubTrackLimitReached` where the renderer has no room
    /// for another sub-track, and with `CommandError` where there is room
    /// for the sub-track and none in the queue. Where it fails, nothing is
    /// sent.
    pub fn add_sub_track<S, A>(
        &mut self,
        queue: &mut CommandQueue<Command<S, A>>,
        track: Track,
    ) -> (result: Result<SubTrackId, AddSubTrackError>)
        requires
            old(queue).wf(),
            old(self).issued(IdKind::SubTrack) < u64::MAX,
        ensures
            final(queue).wf(),
            final(queue).room() == old(queue).room(),
            old(self).after_adding(
                *final(self),
                IdKind::SubTrack,
                has_room(old(queue)@, old(queue).room()),
            ),
            match result {
                Ok(id) => {
                    &&& old(self).count(IdKind::SubTrack) < old(self).room(IdKind::SubTrack)
                    &&& has_room(old(queue)@, old(queue).room())
                    &&& id@ == old(self).issued(IdKind::SubTrack)
                    &&& final(queue)@ == old(queue)@.push(
                        Command::Mixer(MixerCommand::AddSubTrack(id, track)),
                    )
                },
                Err(AddSubTrackError::SubTrackLimitReached) => {
                    &&& old(self).count(IdKind::SubTrack) >= old(self).room(IdKind::SubTrack)
                    &&& final(queue)@ == old(queue)@
                },
                Err(AddSubTrackError::CommandError(error)) => {
                    &&& old(self).count(IdKind::SubTrack) < old(self).room(IdKind::SubTrack)
                    &&& !has_room(old(queue)@, old(queue).room())
                    &&& error == CommandError::QueueFull
                    &&& final(queue)@ == old(queue)@
                },
            },
    {
        if self.sub_tracks >= self.capacities.sub_tracks {
            return Err(AddSubTrackError::SubTrackLimitReached);
        }
        proof {
            self.ids.lemma_issue(IdKind::SubTrack);
        }
        let id = SubTrackId::new(&mut self.ids);
        match queue.send(Command::Mixer(MixerCommand::AddSubTrack(id, track))) {
            Ok(()) => {
                self.sub_tracks = self.sub_tracks + 1;
                Ok(id)
            },
            Err(error) => Err(AddSubTrackError::from(error)),
        }
    }

    /// Sends a new clock to the renderer, and returns its identifier. The
    /// clock is at zero and does not run yet.
    ///
    /// This fails with `ClockLimitReached` where the renderer has no room
    /// for another clock, and with `CommandError` where there is room for
    /// the clock and none in the queue. Where it fails, nothing is sent.
    pub fn add_clock<S, A>(
        &mut self,
        queue: &mut CommandQueue<Command<S, A>>,
        interval: Value,
    ) -> (result: Result<ClockId, AddClockError>)
        requires
            old(queue).wf(),
            old(self).issued(IdKind::Clock) < u64::MAX,
        ensures
            final(queue).wf(),
            final(queue).room() == old(queue).room(),
            old(self).after_adding(
                *final(self),
                IdKind::Clock,
                has_room(old(queue)@, old(queue).room()),
            ),
            match result {
                Ok(id) => {
                    &&& old(self).count(IdKind::Clock) < old(self).room(IdKind::Clock)
                    &&& has_room(old(queue)@, old(queue).room())
                    &&& id@ == old(self).issued(IdKind::Clock)
                    &&& final(queue)@ == old(queue)@.push(
                        Command::Clock(
                            ClockCommand::Add(
                                id,
                                Clock { interval, ticking: false, ticks: 0, fraction: 0 },
                            ),
                        ),
                    )
                },
                Err(AddClockError::ClockLimitReached) => {
                    &&& old(self).count(IdKind::Clock) >= old(self).room(IdKind::Clock)
                    &&& final(queue)@ == old(queue)@
                },
                Err(AddClockError::CommandError(error)) => {
                    &&& old(self).count(IdKind::Clock) < old(self).room(IdKind::Clock)
                    &&& !has_room(old(queue)@, old(queue).room())
                    &&& error == CommandError::QueueFull
                    &&& final(queue)@ == old(queue)@
                },
            },
    {
        if self.clocks >= self.capacities.clocks {
            return Err(AddClockError::ClockLimitReached);
        }
        proof {
            self.ids.lemma_issue(IdKind::Clock);
        }
        let id = ClockId::new(&mut self.ids);
        match queue.send(Command::Clock(ClockCommand::Add(id, Clock::new(interval)))) {
            Ok(()) => {
                self.clocks = self.clocks + 1;
                Ok(id)
            },
            Err(error) => Err(AddClockError::from(error)),
        }
    }

    /// Sends a new audio stream to the renderer, to play on a track, and
    /// returns its identifier.
    ///
    /// This fails with `AudioStreamLimitReached` where the renderer has no
    /// room for another audio stream, and with `CommandError` where there is
    /// room for the stream and none in the queue. Where it fails, nothing is
    /// sent.
    pub fn add_audio_stream<S, A>(
        &mut self,
        queue: &mut CommandQueue<Command<S, A>>,
        stream: A,
        track: TrackIndex,
    ) -> (result: Result<AudioStreamId, AddAudioStreamError>)
        requires
            old(queue).wf(),
            old(self).issued(IdKind::AudioStream) < u64::MAX,
        ensures
            final(queue).wf(),
            final(queue).room() == old(queue).room(),
            old(self).after_adding(
                *final(self),
                IdKind::AudioStream,
                has_room(old(queue)@, old(queue).room()),
            ),
            match result {
                Ok(id) => {
                    &&& old(self).count(IdKind::AudioStream) < old(self).room(IdKind::AudioStream)
                    &&& has_room(old(queue)@, old(queue).room())
                    &&& id@ == old(self).issued(IdKind::AudioStream)
                    &&& final(queue)@ == old(queue)@.push(
                        Command::AudioStream(
                            AudioStreamCommand::Add(id, AudioStreamWrapper { stream, track }),
                        ),
                    )
                },
                Err(AddAudioStreamError::AudioStreamLimitReached) => {
                    &&& old(self).count(IdKind::AudioStream) >= old(self).room(
                        IdKind::AudioStream,
                    )
                    &&& final(queue)@ == old(queue)@
                },
                Err(AddAudioStreamError::CommandError(error)) => {
                    &&& old(self).count(IdKind::AudioStream) < old(self).room(IdKind::AudioStream)
                    &&& !has_room(old(queue)@, old(queue).room())
                    &&& error == CommandError::QueueFull
                    &&& final(queue)@ == old(queue)@
                },
            },
    {
        if self.audio_streams >= self.capacities.audio_streams {
            return Err(AddAudioStreamError::AudioStreamLimitReached);
        }
        proof {
            self.ids.lemma_issue(IdKind::AudioStream);
        }
        let id = AudioStreamId::new(&mut self.ids);
        let wrapper = AudioStreamWrapper::new(stream, track);
        match queue.send(Command::AudioStream(AudioStreamCommand::Add(id, wrapper))) {
            Ok(()) => {
                self.audio_streams = self.audio_streams + 1;
                Ok(id)
            },
            Err(error) => Err(AddAudioStreamError::from(error)),
        }
    }

    /// Asks the renderer to fade all sounds out and to pause them.
    pub fn pause<S, A>(&self, queue: &mut CommandQueue<Command<S, A>>, tween: Tween) -> (result:
        Result<(), CommandError>)
        requires
            old(queue).wf(),
        ensures
            final(queue).wf(),
            final(queue).room() == old(queue).room(),
            result is Ok <==> has_room(old(queue)@, old(queue).room()),
            result is Err ==> result == Err::<(), CommandError>(CommandError::QueueFull),
            final(queue)@ == sent(
                old(queue)@,
                old(queue).room(),
                Command::Pause(tween),
            ),
    {
        queue.send(Command::Pause(tween))
    }

    /// Asks the renderer to fade all sounds in again after a pause.
    pub fn resume<S, A>(&self, queue: &mut CommandQueue<Command<S, A>>, tween: Tween) -> (result:
        Result<(), CommandError>)
        requires
            old(queue).wf(),
        ensures
            final(queue).wf(),
            final(queue).room() == old(queue).room(),
            result is Ok <==> has_room(old(queue)@, old(queue).room()),
            result is Err ==> result == Err::<(), CommandError>(CommandError::QueueFull),
            final(queue)@ == sent(
                old(queue)@,
                old(queue).room(),
                Command::Resume(tween),
            ),
    {
        queue.send(Command::Resume(tween))
    }
}

} // verus!
