//! Handles: what the control side keeps of a resource. A handle holds the
//! identifier of the resource and nothing of the resource itself; whatever is
//! asked of it becomes a command to the renderer.

use crate::command::{
    has_room, sent, ClockCommand, Command, CommandQueue, MixerCommand, ParameterCommand,
};
use crate::error::CommandError;
use crate::id::{ClockId, ParameterId, TrackId};
use crate::tween::Tween;
use crate::value::Value;
use vstd::prelude::*;

verus! {

/// What sending a command does to a queue, and what the sender is told: the
/// command is behind the others and the sender is told so, or the queue was
/// full, stays as it is, and the sender gets `QueueFull`.
pub open spec fn delivers<C>(
    before: CommandQueue<C>,
    after: CommandQueue<C>,
    result: Result<(), CommandError>,
    command: C,
) -> bool {
    &&& after.wf()
    &&& after.room() == before.room()
    &&& after@ == sent(before@, before.room(), command)
    &&& result is Ok <==> has_room(before@, before.room())
    &&& result is Err ==> result == Err::<(), CommandError>(CommandError::QueueFull)
}

/// Controls a parameter.
#[derive(Debug, Clone, Copy, PartialEq, Eq, Structural)]
pub struct ParameterHandle {
    /// The identifier of the parameter.
    pub id: ParameterId,
}

impl ParameterHandle {
    /// A handle to the parameter with an identifier.
    pub fn new(id: ParameterId) -> (handle: Self)
        ensures
            handle.id == id,
    {
        ParameterHandle { id }
    }

    /// The identifier of the parameter.
    pub fn id(&self) -> (id: ParameterId)
        ensures
            id == self.id,
    {
        self.id
    }

    /// Asks the renderer to move the parameter towards a target.
    pub fn set<S, A>(
        &self,
        queue: &mut CommandQueue<Command<S, A>>,
        target: i32,
        tween: Tween,
    ) -> (result: Result<(), CommandError>)
        requires
            old(queue).wf(),
        ensures
            delivers(
                *old(queue),
                *final(queue),
                result,
                Command::Parameter(ParameterCommand::SetValue { id: self.id, target, tween }),
            ),
    {
        queue.send(Command::Parameter(ParameterCommand::SetValue { id: self.id, target, tween }))
    }

    /// Asks the renderer to hold the parameter where it is.
    pub fn pause<S, A>(&self, queue: &mut CommandQueue<Command<S, A>>) -> (result: Result<
        (),
        CommandError,
    >)
        requires
            old(queue).wf(),
        ensures
            delivers(
                *old(queue),
                *final(queue),
                result,
                Command::Parameter(ParameterCommand::Pause(self.id)),
            ),
    {
        queue.send(Command::Parameter(ParameterCommand::Pause(self.id)))
    }

    /// Asks the renderer to let the parameter move again.
    pub fn resume<S, A>(&self, queue: &mut CommandQueue<Command<S, A>>) -> (result: Result<
        (),
        CommandError,
    >)
        requires
            old(queue).wf(),
        ensures
            delivers(
                *old(queue),
                *final(queue),
                result,
                Command::Parameter(ParameterCommand::Resume(self.id)),
            ),
    {
        queue.send(Command::Parameter(ParameterCommand::Resume(self.id)))
    }
}

/// Controls a clock.
#[derive(Debug, Clone, Copy, PartialEq, Eq, Structural)]
pub struct ClockHandle {
    /// The identifier of the clock.
    pub id: ClockId,
}

impl ClockHandle {
    /// A handle to the clock with an identifier.
    pub fn new(id: ClockId) -> (handle: Self)
        ensures
            handle.id == id,
    {
        ClockHandle { id }
    }

    /// The identifier of the clock.
    pub fn id(&self) -> (id: ClockId)
        ensures
            id == self.id,
    {
        self.id
    }

    /// Asks the renderer to set the time between two ticks of the clock.
    pub fn set_interval<S, A>(
        &self,
        queue: &mut CommandQueue<Command<S, A>>,
        interval: Value,
    ) -> (result: Result<(), CommandError>)
        requires
            old(queue).wf(),
        ensures
            delivers(
                *old(queue),
                *final(queue),
                result,
                Command::Clock(ClockCommand::SetInterval(self.id, interval)),
            ),
    {
        queue.send(Command::Clock(ClockCommand::SetInterval(self.id, interval)))
    }

    /// Asks the renderer to start the clock, or to let it run on.
    pub fn start<S, A>(&self, queue: &mut CommandQueue<Command<S, A>>) -> (result: Result<
        (),
        CommandError,
    >)
        requires
            old(queue).wf(),
        ensures
            delivers(
                *old(queue),
                *final(queue),
                result,
                Command::Clock(ClockCommand::Start(self.id)),
            ),
    {
        queue.send(Command::Clock(ClockCommand::Start(self.id)))
    }

    /// Asks the renderer to halt the clock.
    pub fn pause<S, A>(&self, queue: &mut CommandQueue<Command<S, A>>) -> (result: Result<
        (),
        CommandError,
    >)
        requires
            old(queue).wf(),
        ensures
            delivers(
                *old(queue),
                *final(queue),
                result,
                Command::Clock(ClockCommand::Pause(self.id)),
            ),
    {
        queue.send(Command::Clock(ClockCommand::Pause(self.id)))
    }

    /// Asks the renderer to halt the clock and to set it back to zero.
    pub fn stop<S, A>(&self, queue: &mut CommandQueue<Command<S, A>>) -> (result: Result<
        (),
        CommandError,
    >)
        requires
            old(queue).wf(),
        ensures
            delivers(
                *old(queue),
                *final(queue),
                result,
                Command::Clock(ClockCommand::Stop(self.id)),
            ),
    {
        queue.send(Command::Clock(ClockCommand::Stop(self.id)))
    }
}

/// Controls a mixer track.
#[derive(Debug, Clone, Copy, PartialEq, Eq, Structural)]
pub struct TrackHandle {
    /// The identifier of the track.
    pub id: TrackId,
}

impl TrackHandle {
    /// A handle to the track with an identifier.
    pub fn new(id: TrackId) -> (handle: Self)
        ensures
            handle.id == id,
    {
        TrackHandle { id }
    }

    /// The identifier of the track.
    pub fn id(&self) -> (id: TrackId)
        ensures
            id == self.id,
    {
        self.id
    }

    /// Asks the renderer to give the track a volume.
    pub fn set_volume<S, A>(
        &self,
        queue: &mut CommandQueue<Command<S, A>>,
        volume: Value,
    ) -> (result: Result<(), CommandError>)
        requires
            old(queue).wf(),
        ensures
            delivers(
                *old(queue),
                *final(queue),
                result,
                Command::Mixer(MixerCommand::SetTrackVolume(self.id, volume)),
            ),
    {
        queue.send(Command::Mixer(MixerCommand::SetTrackVolume(self.id, volume)))
    }

    /// Asks the renderer to give the track a panning.
    pub fn set_panning<S, A>(
        &self,
        queue: &mut CommandQueue<Command<S, A>>,
        panning: Value,
    ) -> (result: Result<(), CommandError>)
        requires
            old(queue).wf(),
        ensures
            delivers(
                *old(queue),
                *final(queue),
                result,
                Command::Mixer(MixerCommand::SetTrackPanning(self.id, panning)),
            ),
    {
        queue.send(Command::Mixer(MixerCommand::SetTrackPanning(self.id, panning)))
    }
}

} // verus!
