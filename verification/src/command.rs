//! The commands that the control side sends to the renderer, and the queue
//! that carries them.
//!
//! The queue has a fixed capacity. Sending never waits: a full queue turns
//! the command down. The renderer takes everything that has been queued in
//! one go, in the order in which it was sent.

use crate::audio_stream::AudioStreamWrapper;
use crate::clock::Clock;
use crate::error::CommandError;
use crate::id::{AudioStreamId, ClockId, ParameterId, SoundId, SubTrackId, TrackId};
use crate::mixer::Track;
use crate::parameter::Parameter;
use crate::tween::Tween;
use crate::value::Value;
use std::collections::VecDeque;
use vstd::prelude::*;

verus! {

/// A command that concerns a parameter.
pub enum ParameterCommand {
    /// Adds a parameter.
    Add(ParameterId, Parameter),
    /// Moves a parameter towards a target.
    SetValue {
        /// The parameter.
        id: ParameterId,
        /// The value to reach.
        target: i32,
        /// How to get there.
        tween: Tween,
    },
    /// Holds a parameter where it is.
    Pause(ParameterId),
    /// Lets a held parameter move again.
    Resume(ParameterId),
}

/// A command that concerns the mixer.
pub enum MixerCommand {
    /// Adds a sub-track.
    AddSubTrack(SubTrackId, Track),
    /// Gives a track a volume.
    SetTrackVolume(TrackId, Value),
    /// Gives a track a panning.
    SetTrackPanning(TrackId, Value),
}

/// A command that concerns a clock.
pub enum ClockCommand {
    /// Adds a clock.
    Add(ClockId, Clock),
    /// Sets the time between two ticks of a clock.
    SetInterval(ClockId, Value),
    /// Starts a clock.
    Start(ClockId),
    /// Halts a clock.
    Pause(ClockId),
    /// Halts a clock and sets it back to zero.
    Stop(ClockId),
}

/// A command that concerns an audio stream.
pub enum AudioStreamCommand<A> {
    /// Adds an audio stream.
    Add(AudioStreamId, AudioStreamWrapper<A>),
}

/// A command that concerns a sound.
pub enum SoundCommand<S> {
    /// Begins to play a sound.
    Play(SoundId, S),
}

/// What the control side can ask of the renderer.
pub enum Command<S, A> {
    /// A command that concerns a parameter.
    Parameter(ParameterCommand),
    /// A command that concerns the mixer.
    Mixer(MixerCommand),
    /// A command that concerns a clock.
    Clock(ClockCommand),
    /// A command that concerns an audio stream.
    AudioStream(AudioStreamCommand<A>),
    /// A command that concerns a sound.
    Sound(SoundCommand<S>),
    /// Fades all sounds out and pauses them.
    Pause(Tween),
    /// Fades all sounds in again after a pause.
    Resume(Tween),
}

/// Whether a queue with this content and this much room takes one more
/// command.
pub open spec fn has_room<C>(queued: Seq<C>, room: nat) -> bool {
    queued.len() < room
}

/// The content of a queue after a command was sent to it: the command is
/// behind the others, or was turned down where the queue was full.
pub open spec fn sent<C>(queued: Seq<C>, room: nat, command: C) -> Seq<C> {
    if has_room(queued, room) {
        queued.push(command)
    } else {
        queued
    }
}

/// The content of a queue after a run of commands was sent to it, the first
/// one first.
pub open spec fn sent_all<C>(queued: Seq<C>, room: nat, commands: Seq<C>) -> Seq<C>
    decreases commands.len(),
{
    if commands.len() == 0 {
        queued
    } else {
        sent(sent_all(queued, room, commands.drop_last()), room, commands.last())
    }
}

/// A queue keeps what it is sent, in the order in which it was sent: after
/// no more commands than it has room for were sent to an empty queue, it
/// holds just these commands, the first one in front. That is what the
/// renderer gets when it next empties the queue.
pub proof fn lemma_queue_keeps_order<C>(room: nat, commands: Seq<C>)
    requires
        commands.len() <= room,
    ensures
        sent_all(Seq::<C>::empty(), room, commands) == commands,
    decreases commands.len(),
{
    if commands.len() > 0 {
        lemma_queue_keeps_order(room, commands.drop_last());
        assert(commands.drop_last().push(commands.last()) =~= commands);
    }
}

/// A full queue turns a command down and keeps what it holds: after as many
/// commands as it has room for, one more changes nothing.
pub proof fn lemma_full_queue_refuses<C>(room: nat, commands: Seq<C>, extra: C)
    requires
        commands.len() == room,
    ensures
        !has_room(sent_all(Seq::<C>::empty(), room, commands), room),
        sent(sent_all(Seq::<C>::empty(), room, commands), room, extra) == commands,
{
    lemma_queue_keeps_order(room, commands);
}

/// A bounded queue of commands, from the control side to the renderer.
pub struct CommandQueue<C> {
    queue: VecDeque<C>,
    capacity: usize,
}

impl<C> View for CommandQueue<C> {
    type V = Seq<C>;

    /// The commands that wait in the queue, the one sent first in front.
    closed spec fn view(&self) -> Seq<C> {
        self.queue@
    }
}

impl<C> CommandQueue<C> {
    /// What holds of every queue that [`CommandQueue::new`] made: it holds
    /// no more commands than it has room for.
    pub closed spec fn wf(self) -> bool {
        self.queue@.len() <= self.capacity
    }

    /// The number of commands that the queue has room for.
    pub closed spec fn room(self) -> nat {
        self.capacity as nat
    }

    /// A queue holds no more commands than it has room for.
    pub proof fn lemma_bounded(self)
        requires
            self.wf(),
        ensures
            self@.len() <= self.room(),
    {
    }

    /// An empty queue with room for `capacity` commands.
    pub fn new(capacity: usize) -> (queue: Self)
        ensures
            queue.wf(),
            queue@ == Seq::<C>::empty(),
            queue.room() == capacity,
    {
        CommandQueue { queue: VecDeque::with_capacity(capacity), capacity }
    }

    /// The number of commands that the queue has room for.
    pub fn capacity(&self) -> (capacity: usize)
        ensures
            capacity == self.room(),
    {
        self.capacity
    }

    /// The number of commands that wait in the queue.
    pub fn len(&self) -> (len: usize)
        ensures
            len == self@.len(),
    {
        self.queue.len()
    }

    /// Puts a command at the end of the queue. Where the queue is full, the
    /// command is turned down at once and the queue stays as it is.
    pub fn send(&mut self, command: C) -> (result: Result<(), CommandError>)
        requires
            old(self).wf(),
        ensures
            final(self).wf(),
            final(self).room() == old(self).room(),
            result is Ok <==> has_room(old(self)@, old(self).room()),
            result is Err ==> result == Err::<(), CommandError>(CommandError::QueueFull),
            final(self)@ == sent(old(self)@, old(self).room(), command),
    {
        if self.queue.len() >= self.capacity {
            Err(CommandError::QueueFull)
        } else {
            self.queue.push_back(command);
            Ok(())
        }
    }

    /// Takes the command at the front out of the queue, if there is one.
    pub fn try_recv(&mut self) -> (command: Option<C>)
        requires
            old(self).wf(),
        ensures
            final(self).wf(),
            final(self).room() == old(self).room(),
            match command {
                Some(first) => old(self)@.len() > 0 && first == old(self)@[0] && final(self)@
                    == old(self)@.drop_first(),
                None => old(self)@.len() == 0 && final(self)@ == old(self)@,
            },
    {
        self.queue.pop_front()
    }

    /// Takes all commands out of the queue and returns them, the one sent
    /// first in front. It does not wait for more.
    pub fn try_recv_all(&mut self) -> (commands: Vec<C>)
        requires
            old(self).wf(),
        ensures
            final(self).wf(),
            final(self).room() == old(self).room(),
            commands@ == old(self)@,
            final(self)@ == Seq::<C>::empty(),
    {
        let ghost queued = self.queue@;
        let mut commands: Vec<C> = Vec::new();
        while self.queue.len() > 0
            invariant
                commands@ + self.queue@ == queued,
                self.queue@.len() <= self.capacity,
                self.capacity == old(self).capacity,
            decreases self.queue@.len(),
        {
            let ghost waiting = self.queue@;
            match self.queue.pop_front() {
                Some(command) => {
                    commands.push(command);
                    assert(commands@ + self.queue@ =~= queued) by {
                        assert(waiting =~= seq![waiting[0]] + waiting.subrange(
                            1,
                            waiting.len() as int,
                        ));
                    }
                },
                None => {},
            }
        }
        assert(commands@ =~= commands@ + self.queue@);
        assert(self.queue@ =~= Seq::<C>::empty());
        commands
    }
}

} // verus!
