//! Errors that the control side gets when a resource cannot be created.
//!
//! Every error is handed back by the call that caused it. None of them is
//! fatal: the caller may retry later or drop the request.

use vstd::prelude::*;

verus! {

/// A pool holds as many resources as it has room for.
#[derive(Debug, Clone, Copy, PartialEq, Eq, Structural)]
pub struct LimitReachedError;

/// Errors that can occur when sending a command to the renderer.
#[derive(Debug, Clone, Copy, PartialEq, Eq, Structural)]
pub enum CommandError {
    /// The command queue holds as many commands as it has room for.
    QueueFull,
}

impl CommandError {
    /// The text that describes this error.
    pub open spec fn message_text(self) -> Seq<char> {
        "Could not send the command because the command queue is full."@
    }

    /// A description of the error for the user.
    pub fn message(&self) -> (text: String)
        ensures
            text@ == self.message_text(),
    {
        "Could not send the command because the command queue is full.".to_owned()
    }
}

/// Errors that can occur when playing a sound.
#[derive(Debug, Clone, Copy, PartialEq, Eq, Structural)]
pub enum PlaySoundError {
    /// Could not play a sound because the maximum number of sounds has been reached.
    SoundLimitReached,
    /// An error occured when sending a command to the renderer.
    CommandError(CommandError),
}

impl PlaySoundError {
    /// The text that describes this error.
    pub open spec fn message_text(self) -> Seq<char> {
        match self {
            PlaySoundError::SoundLimitReached => {
                "Could not play a sound because the maximum number of sounds has been reached."@
            },
            PlaySoundError::CommandError(error) => error.message_text(),
        }
    }

    /// A description of the error for the user.
    pub fn message(&self) -> (text: String)
        ensures
            text@ == self.message_text(),
    {
        match self {
            PlaySoundError::SoundLimitReached => {
                "Could not play a sound because the maximum number of sounds has been reached.".to_owned()
            },
            PlaySoundError::CommandError(error) => error.message(),
        }
    }

    /// The lower-level error that caused this one, if there is one.
    pub fn source(&self) -> (cause: Option<CommandError>)
        ensures
            cause == match *self {
                PlaySoundError::CommandError(error) => Some(error),
                PlaySoundError::SoundLimitReached => None,
            },
    {
        match self {
            PlaySoundError::CommandError(error) => Some(*error),
            _ => None,
        }
    }
}

impl From<CommandError> for PlaySoundError {
    fn from(v: CommandError) -> (error: Self) {
        PlaySoundError::CommandError(v)
    }
}

impl vstd::std_specs::convert::FromSpecImpl<CommandError> for PlaySoundError {
    open spec fn obeys_from_spec() -> bool {
        true
    }

    open spec fn from_spec(v: CommandError) -> Self {
        PlaySoundError::CommandError(v)
    }
}

/// Errors that can occur when creating a parameter.
#[derive(Debug, Clone, Copy, PartialEq, Eq, Structural)]
pub enum AddParameterError {
    /// Could not add a parameter because the maximum number of parameters has been reached.
    ParameterLimitReached,
    /// An error occured when sending a command to the renderer.
    CommandError(CommandError),
}

impl AddParameterError {
    /// The text that describes this error.
    pub open spec fn message_text(self) -> Seq<char> {
        match self {
            AddParameterError::ParameterLimitReached => {
                "Could not add a parameter because the maximum number of parameters has been reached."@
            },
            AddParameterError::CommandError(error) => error.message_text(),
        }
    }

    /// A description of the error for the user.
    pub fn message(&self) -> (text: String)
        ensures
            text@ == self.message_text(),
    {
        match self {
            AddParameterError::ParameterLimitReached => {
                "Could not add a parameter because the maximum number of parameters has been reached.".to_owned()
            },
            AddParameterError::CommandError(error) => error.message(),
        }
    }

    /// The lower-level error that caused this one, if there is one.
    pub fn source(&self) -> (cause: Option<CommandError>)
        ensures
            cause == match *self {
                AddParameterError::CommandError(error) => Some(error),
                AddParameterError::ParameterLimitReached => None,
            },
    {
        match self {
            AddParameterError::CommandError(error) => Some(*error),
            _ => None,
        }
    }
}

impl From<CommandError> for AddParameterError {
    fn from(v: CommandError) -> (error: Self) {
        AddParameterError::CommandError(v)
    }
}

impl vstd::std_specs::convert::FromSpecImpl<CommandError> for AddParameterError {
    open spec fn obeys_from_spec() -> bool {
        true
    }

    open spec fn from_spec(v: CommandError) -> Self {
        AddParameterError::CommandError(v)
    }
}

/// Errors that can occur when creating a mixer sub-track.
#[derive(Debug, Clone, Copy, PartialEq, Eq, Structural)]
pub enum AddSubTrackError {
    /// Could not add a sub-track because the maximum number of sub-tracks has been reached.
    SubTrackLimitReached,
    /// An error occured when sending a command to the renderer.
    CommandError(CommandError),
}

impl AddSubTrackError {
    /// The text that describes this error.
    pub open spec fn message_text(self) -> Seq<char> {
        match self {
            AddSubTrackError::SubTrackLimitReached => {
                "Could not add a sub-track because the maximum number of sub-tracks has been reached."@
            },
            AddSubTrackError::CommandError(error) => error.message_text(),
        }
    }

    /// A description of the error for the user.
    pub fn message(&self) -> (text: String)
        ensures
            text@ == self.message_text(),
    {
        match self {
            AddSubTrackError::SubTrackLimitReached => {
                "Could not add a sub-track because the maximum number of sub-tracks has been reached.".to_owned()
            },
            AddSubTrackError::CommandError(error) => error.message(),
        }
    }

    /// The lower-level error that caused this one, if there is one.
    pub fn source(&self) -> (cause: Option<CommandError>)
        ensures
            cause == match *self {
                AddSubTrackError::CommandError(error) => Some(error),
                AddSubTrackError::SubTrackLimitReached => None,
            },
    {
        match self {
            AddSubTrackError::CommandError(error) => Some(*error),
            _ => None,
        }
    }
}

impl From<CommandError> for AddSubTrackError {
    fn from(v: CommandError) -> (error: Self) {
        AddSubTrackError::CommandError(v)
    }
}

impl vstd::std_specs::convert::FromSpecImpl<CommandError> for AddSubTrackError {
    open spec fn obeys_from_spec() -> bool {
        true
    }

    open spec fn from_spec(v: CommandError) -> Self {
        AddSubTrackError::CommandError(v)
    }
}

/// Errors that can occur when creating a clock.
#[derive(Debug, Clone, Copy, PartialEq, Eq, Structural)]
pub enum AddClockError {
    /// Could not add a clock because the maximum number of clocks has been reached.
    ClockLimitReached,
    /// An error occured when sending a command to the renderer.
    CommandError(CommandError),
}

impl AddClockError {
    /// The text that describes this error.
    pub open spec fn message_text(self) -> Seq<char> {
        match self {
            AddClockError::ClockLimitReached => {
                "Could not add a clock because the maximum number of clocks has been reached."@
            },
            AddClockError::CommandError(error) => error.message_text(),
        }
    }

    /// A description of the error for the user.
    pub fn message(&self) -> (text: String)
        ensures
            text@ == self.message_text(),
    {
        match self {
            AddClockError::ClockLimitReached => {
                "Could not add a clock because the maximum number of clocks has been reached.".to_owned()
            },
            AddClockError::CommandError(error) => error.message(),
        }
    }

    /// The lower-level error that caused this one, if there is one.
    pub fn source(&self) -> (cause: Option<CommandError>)
        ensures
            cause == match *self {
                AddClockError::CommandError(error) => Some(error),
                AddClockError::ClockLimitReached => None,
            },
    {
        match self {
            AddClockError::CommandError(error) => Some(*error),
            _ => None,
        }
    }
}

impl From<CommandError> for AddClockError {
    fn from(v: CommandError) -> (error: Self) {
        AddClockError::CommandError(v)
    }
}

impl vstd::std_specs::convert::FromSpecImpl<CommandError> for AddClockError {
    open spec fn obeys_from_spec() -> bool {
        true
    }

    open spec fn from_spec(v: CommandError) -> Self {
        AddClockError::CommandError(v)
    }
}

/// Errors that can occur when creating an audio stream.
#[derive(Debug, Clone, Copy, PartialEq, Eq, Structural)]
pub enum AddAudioStreamError {
    /// Could not add an audio stream because the maximum number of audio streams has been reached.
    AudioStreamLimitReached,
    /// An error occured when sending a command to the renderer.
    CommandError(CommandError),
}

impl AddAudioStreamError {
    /// The text that describes this error.
    pub open spec fn message_text(self) -> Seq<char> {
        match self {
            AddAudioStreamError::AudioStreamLimitReached => {
                "Could not add a audio stream because the maximum number of audio streams has been reached."@
            },
            AddAudioStreamError::CommandError(error) => error.message_text(),
        }
    }

    /// A description of the error for the user.
    pub fn message(&self) -> (text: String)
        ensures
            text@ == self.message_text(),
    {
        match self {
            AddAudioStreamError::AudioStreamLimitReached => {
                "Could not add a audio stream because the maximum number of audio streams has been reached.".to_owned()
            },
            AddAudioStreamError::CommandError(error) => error.message(),
        }
    }

    /// The lower-level error that caused this one, if there is one.
    pub fn source(&self) -> (cause: Option<CommandError>)
        ensures
            cause == match *self {
                AddAudioStreamError::CommandError(error) => Some(error),
                AddAudioStreamError::AudioStreamLimitReached => None,
            },
    {
        match self {
            AddAudioStreamError::CommandError(error) => Some(*error),
            _ => None,
        }
    }
}

impl From<CommandError> for AddAudioStreamError {
    fn from(v: CommandError) -> (error: Self) {
        AddAudioStreamError::CommandError(v)
    }
}

impl vstd::std_specs::convert::FromSpecImpl<CommandError> for AddAudioStreamError {
    open spec fn obeys_from_spec() -> bool {
        true
    }

    open spec fn from_spec(v: CommandError) -> Self {
        AddAudioStreamError::CommandError(v)
    }
}

} // verus!
