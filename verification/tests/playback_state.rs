use kira::sound::PlaybackState;

#[test]
fn advancing_states() {
    assert!(PlaybackState::Playing.is_advancing());
    assert!(PlaybackState::Pausing.is_advancing());
    assert!(PlaybackState::Resuming.is_advancing());
    assert!(PlaybackState::Stopping.is_advancing());
    assert!(!PlaybackState::Paused.is_advancing());
    assert!(!PlaybackState::WaitingToResume.is_advancing());
    assert!(!PlaybackState::Stopped.is_advancing());
}
