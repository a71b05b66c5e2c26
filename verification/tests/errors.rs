use kira::error::{
    AddAudioStreamError, AddClockError, AddParameterError, AddSubTrackError, CommandError,
    PlaySoundError,
};

#[test]
fn command_error_message() {
    assert_eq!(
        CommandError::QueueFull.message(),
        "Could not send the command because the command queue is full."
    );
}

#[test]
fn play_sound_error_messages() {
    assert_eq!(
        PlaySoundError::SoundLimitReached.message(),
        "Could not play a sound because the maximum number of sounds has been reached."
    );
    assert_eq!(
        PlaySoundError::CommandError(CommandError::QueueFull).message(),
        CommandError::QueueFull.message()
    );
}

#[test]
fn add_parameter_error_messages() {
    assert_eq!(
        AddParameterError::ParameterLimitReached.message(),
        "Could not add a parameter because the maximum number of parameters has been reached."
    );
    assert_eq!(
        AddParameterError::CommandError(CommandError::QueueFull).message(),
        CommandError::QueueFull.message()
    );
}

#[test]
fn add_sub_track_error_messages() {
    assert_eq!(
        AddSubTrackError::SubTrackLimitReached.message(),
        "Could not add a sub-track because the maximum number of sub-tracks has been reached."
    );
    assert_eq!(
        AddSubTrackError::CommandError(CommandError::QueueFull).message(),
        CommandError::QueueFull.message()
    );
}

#[test]
fn add_clock_error_messages() {
    assert_eq!(
        AddClockError::ClockLimitReached.message(),
        "Could not add a clock because the maximum number of clocks has been reached."
    );
    assert_eq!(
        AddClockError::CommandError(CommandError::QueueFull).message(),
        CommandError::QueueFull.message()
    );
}

#[test]
fn add_audio_stream_error_messages() {
    assert_eq!(
        AddAudioStreamError::AudioStreamLimitReached.message(),
        "Could not add a audio stream because the maximum number of audio streams has been reached."
    );
    assert_eq!(
        AddAudioStreamError::CommandError(CommandError::QueueFull).message(),
        CommandError::QueueFull.message()
    );
}

#[test]
fn only_a_command_error_has_a_source() {
    assert_eq!(PlaySoundError::SoundLimitReached.source(), None);
    assert_eq!(AddParameterError::ParameterLimitReached.source(), None);
    assert_eq!(AddSubTrackError::SubTrackLimitReached.source(), None);
    assert_eq!(AddClockError::ClockLimitReached.source(), None);
    assert_eq!(AddAudioStreamError::AudioStreamLimitReached.source(), None);
    let cause = CommandError::QueueFull;
    assert_eq!(PlaySoundError::CommandError(cause).source(), Some(cause));
    assert_eq!(AddParameterError::CommandError(cause).source(), Some(cause));
    assert_eq!(AddSubTrackError::CommandError(cause).source(), Some(cause));
    assert_eq!(AddClockError::CommandError(cause).source(), Some(cause));
    assert_eq!(AddAudioStreamError::CommandError(cause).source(), Some(cause));
}

#[test]
fn command_errors_convert_into_every_error() {
    let cause = CommandError::QueueFull;
    assert_eq!(PlaySoundError::from(cause), PlaySoundError::CommandError(cause));
    assert_eq!(AddParameterError::from(cause), AddParameterError::CommandError(cause));
    assert_eq!(AddSubTrackError::from(cause), AddSubTrackError::CommandError(cause));
    assert_eq!(AddClockError::from(cause), AddClockError::CommandError(cause));
    assert_eq!(AddAudioStreamError::from(cause), AddAudioStreamError::CommandError(cause));
    let converted: AddClockError = cause.into();
    assert_eq!(converted, AddClockError::CommandError(cause));
}
