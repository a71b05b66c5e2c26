use kira::audio_stream::{AudioStream, AudioStreamWrapper};
use kira::clock::Clock;
use kira::command::{
    AudioStreamCommand, ClockCommand, Command, CommandQueue, MixerCommand, ParameterCommand,
    SoundCommand,
};
use kira::error::{
    AddAudioStreamError, AddClockError, AddParameterError, AddSubTrackError, CommandError,
    PlaySoundError,
};
use kira::frame::{Frame, CENTER, UNITY};
use kira::handle::{ClockHandle, ParameterHandle, TrackHandle};
use kira::id::{ClockId, IdAllocator, IdKind, ParameterId, SoundId, SubTrackId, TrackIndex};
use kira::info::Info;
use kira::manager::AudioManager;
use kira::mixer::{Mixer, Track};
use kira::parameter::Parameter;
use kira::pool::Pool;
use kira::renderer::{
    add_into, apply_clock_command, apply_mixer_command, apply_parameter_command, fit, route,
    silent_buffer, Capacities, Renderer,
};
use kira::sound::{Metadata, PlaybackState, Sound, SoundData};
use kira::tween::Tween;
use kira::value::Value;

/// A sound at a constant level that lasts for a number of batches.
struct Tone {
    level: i32,
    batches_left: u32,
    clock: Option<ClockId>,
}

impl Tone {
    fn new(level: i32, batches: u32) -> Self {
        Tone { level, batches_left: batches, clock: None }
    }
}

impl Sound for Tone {
    fn process(&mut self, out: &mut Vec<Frame>, _dt: u64, info: &Info) {
        let mut level = self.level;
        if let Some(clock) = self.clock {
            level += info.clock_ticks(clock).unwrap_or(0) as i32;
        }
        for frame in out.iter_mut() {
            *frame = Frame::new(level, level);
        }
        if self.batches_left > 0 {
            self.batches_left -= 1;
        }
    }

    fn finished(&self) -> bool {
        self.batches_left == 0
    }
}

/// A sound that counts how often it was told that a batch is coming.
struct Counter {
    announced: i32,
}

impl Sound for Counter {
    fn on_start_processing(&mut self) {
        self.announced += 1;
    }

    fn process(&mut self, out: &mut Vec<Frame>, _dt: u64, _info: &Info) {
        for frame in out.iter_mut() {
            *frame = Frame::new(self.announced, 0);
        }
    }

    fn finished(&self) -> bool {
        false
    }
}

struct Hum {
    level: i32,
}

impl AudioStream for Hum {
    fn process(&mut self, out: &mut Vec<Frame>, dt: u64) {
        for frame in out.iter_mut() {
            *frame = Frame::new(self.level, dt as i32);
        }
    }
}

struct LoadedTone {
    level: i32,
}

impl SoundData for LoadedTone {
    type Error = String;
    type Handle = i32;
    type Sound = Tone;

    fn into_sound(self) -> Result<(Tone, i32), String> {
        if self.level < 0 {
            Err(String::from("a tone needs a level"))
        } else {
            Ok((Tone::new(self.level, 1), self.level))
        }
    }
}

fn capacities() -> Capacities {
    Capacities { sounds: 2, parameters: 2, sub_tracks: 2, clocks: 1, audio_streams: 1 }
}

fn flat(level: i32) -> Frame {
    Frame::new(level, level)
}

#[test]
fn a_queue_keeps_the_order_of_what_it_is_sent() {
    let mut queue: CommandQueue<u32> = CommandQueue::new(4);
    assert_eq!(queue.capacity(), 4);
    assert_eq!(queue.len(), 0);
    for command in [7u32, 3, 9] {
        assert_eq!(queue.send(command), Ok(()));
    }
    assert_eq!(queue.len(), 3);
    assert_eq!(queue.try_recv_all(), vec![7, 3, 9]);
    assert_eq!(queue.len(), 0);
    assert_eq!(queue.try_recv_all(), Vec::<u32>::new());
}

#[test]
fn a_full_queue_turns_a_command_down_and_keeps_the_others() {
    let mut queue: CommandQueue<u32> = CommandQueue::new(3);
    assert_eq!(queue.send(1), Ok(()));
    assert_eq!(queue.send(2), Ok(()));
    assert_eq!(queue.send(3), Ok(()));
    assert_eq!(queue.send(4), Err(CommandError::QueueFull));
    assert_eq!(queue.send(5), Err(CommandError::QueueFull));
    assert_eq!(queue.len(), 3);
    assert_eq!(queue.try_recv(), Some(1));
    assert_eq!(queue.send(6), Ok(()));
    assert_eq!(queue.try_recv_all(), vec![2, 3, 6]);
    assert_eq!(queue.try_recv(), None);
}

#[test]
fn a_queue_without_room_takes_nothing() {
    let mut queue: CommandQueue<u32> = CommandQueue::new(0);
    assert_eq!(queue.send(1), Err(CommandError::QueueFull));
    assert_eq!(queue.try_recv(), None);
    assert!(queue.try_recv_all().is_empty());
}

#[test]
fn buffers_of_silence_and_sums_of_batches() {
    assert_eq!(silent_buffer(0), Vec::<Frame>::new());
    assert_eq!(silent_buffer(2), vec![flat(0), flat(0)]);
    let mut buffer = vec![flat(1), flat(i32::MAX)];
    add_into(&mut buffer, &vec![flat(10), flat(10)]);
    assert_eq!(buffer, vec![flat(11), flat(i32::MAX)]);
}

#[test]
fn buffers_are_brought_to_length() {
    let mut buffer = vec![flat(1), flat(2), flat(3)];
    fit(&mut buffer, 2);
    assert_eq!(buffer, vec![flat(1), flat(2)]);
    fit(&mut buffer, 4);
    assert_eq!(buffer, vec![flat(1), flat(2), flat(0), flat(0)]);
    fit(&mut buffer, 4);
    assert_eq!(buffer, vec![flat(1), flat(2), flat(0), flat(0)]);
    fit(&mut buffer, 0);
    assert!(buffer.is_empty());
    fit(&mut buffer, 0);
    assert!(buffer.is_empty());
}

/// A sound that leaves the buffer at a length of its own.
struct Unruly {
    frames: usize,
}

impl Sound for Unruly {
    fn process(&mut self, out: &mut Vec<Frame>, _dt: u64, _info: &Info) {
        out.clear();
        for _ in 0..self.frames {
            out.push(flat(5));
        }
    }

    fn finished(&self) -> bool {
        false
    }
}

#[test]
fn a_batch_of_the_wrong_length_is_cut_or_filled_up_with_silence() {
    let mut ids = IdAllocator::new();
    let mut renderer: Renderer<Unruly, Hum> = Renderer::new(capacities());
    let mut queue: CommandQueue<Command<Unruly, Hum>> = CommandQueue::new(4);
    let nothing = Metadata { semantic_duration: None };
    let short = SoundId::new(&mut ids, 0, TrackIndex::Main, nothing);
    let long = SoundId::new(&mut ids, 0, TrackIndex::Main, nothing);
    renderer.apply(Command::Sound(SoundCommand::Play(short, Unruly { frames: 1 })));
    renderer.apply(Command::Sound(SoundCommand::Play(long, Unruly { frames: 7 })));
    let mut out = vec![flat(-1); 3];
    assert!(renderer.render(&mut queue, 1, &mut out).is_empty());
    assert_eq!(out, vec![flat(10), flat(5), flat(5)]);
    let clocks: Pool<Clock> = Pool::new(0);
    let info = Info::new(&clocks);
    assert_eq!(Unruly { frames: 0 }.process_one(1, &info), flat(0));
    assert_eq!(Unruly { frames: 2 }.process_one(1, &info), flat(5));
}

/// A sound that writes its level into the buffer, or leaves the buffer as
/// it finds it.
struct Shy {
    level: i32,
    writes: bool,
}

impl Sound for Shy {
    fn process(&mut self, out: &mut Vec<Frame>, _dt: u64, _info: &Info) {
        if self.writes {
            for frame in out.iter_mut() {
                *frame = flat(self.level);
            }
        }
    }

    fn finished(&self) -> bool {
        !self.writes
    }
}

#[test]
fn every_sound_is_handed_a_buffer_of_silence() {
    let mut ids = IdAllocator::new();
    let mut renderer: Renderer<Shy, Hum> = Renderer::new(capacities());
    let mut queue: CommandQueue<Command<Shy, Hum>> = CommandQueue::new(4);
    let nothing = Metadata { semantic_duration: None };
    let loud = SoundId::new(&mut ids, 0, TrackIndex::Main, nothing);
    let shy = SoundId::new(&mut ids, 0, TrackIndex::Main, nothing);
    renderer.apply(Command::Sound(SoundCommand::Play(loud, Shy { level: 300, writes: true })));
    renderer.apply(Command::Sound(SoundCommand::Play(shy, Shy { level: 7, writes: false })));
    let mut out = vec![flat(-1); 2];
    let reclaimed = renderer.render(&mut queue, 1, &mut out);
    assert_eq!(out, vec![flat(300); 2]);
    assert_eq!(reclaimed, vec![shy.index()]);
    assert_eq!(renderer.num_sounds(), 1);
    let clocks: Pool<Clock> = Pool::new(0);
    let info = Info::new(&clocks);
    assert_eq!(Shy { level: 7, writes: false }.process_one(1, &info), flat(0));
    assert_eq!(Shy { level: 7, writes: true }.process_one(1, &info), flat(7));
}

#[test]
fn a_batch_is_sent_to_the_buffer_of_its_track() {
    let mut ids = IdAllocator::new();
    let mut mixer = Mixer::new(2);
    let known = SubTrackId::new(&mut ids);
    let stranger = SubTrackId::new(&mut ids);
    assert_eq!(mixer.add_sub_track(known, Track::new()), Ok(()));
    let mut buffers = vec![vec![flat(1), flat(2)], vec![flat(10), flat(20)]];
    let batch = vec![flat(100), flat(i32::MAX)];
    route(&mixer, TrackIndex::Main, &batch, &mut buffers);
    assert_eq!(buffers, vec![vec![flat(101), flat(i32::MAX)], vec![flat(10), flat(20)]]);
    route(&mixer, TrackIndex::Sub(known), &batch, &mut buffers);
    assert_eq!(
        buffers,
        vec![vec![flat(101), flat(i32::MAX)], vec![flat(110), flat(i32::MAX)]]
    );
    route(&mixer, TrackIndex::Sub(stranger), &batch, &mut buffers);
    assert_eq!(
        buffers,
        vec![vec![flat(101), flat(i32::MAX)], vec![flat(110), flat(i32::MAX)]]
    );
}

#[test]
fn commands_change_parameters() {
    let mut ids = IdAllocator::new();
    let a = ParameterId::new(&mut ids);
    let b = ParameterId::new(&mut ids);
    let mut parameters: Pool<Parameter> = Pool::new(1);
    apply_parameter_command(&mut parameters, ParameterCommand::Add(a, Parameter::new(10)));
    apply_parameter_command(&mut parameters, ParameterCommand::Add(b, Parameter::new(20)));
    assert_eq!(parameters.len(), 1);
    assert_eq!(parameters.get(a.index()), Some(&Parameter::new(10)));
    assert_eq!(parameters.get(b.index()), None);
    let tween = Tween { duration: 10 };
    apply_parameter_command(&mut parameters, ParameterCommand::SetValue { id: a, target: 20, tween });
    apply_parameter_command(&mut parameters, ParameterCommand::SetValue { id: b, target: 20, tween });
    parameters.advance_all(5, &());
    assert_eq!(parameters.get(a.index()).unwrap().value(), 15);
    apply_parameter_command(&mut parameters, ParameterCommand::Pause(a));
    apply_parameter_command(&mut parameters, ParameterCommand::Pause(b));
    parameters.advance_all(5, &());
    assert_eq!(parameters.get(a.index()).unwrap().value(), 15);
    apply_parameter_command(&mut parameters, ParameterCommand::Resume(a));
    apply_parameter_command(&mut parameters, ParameterCommand::Resume(b));
    parameters.advance_all(5, &());
    assert_eq!(parameters.get(a.index()).unwrap().value(), 20);
    assert_eq!(parameters.len(), 1);
}

#[test]
fn commands_change_clocks() {
    let mut ids = IdAllocator::new();
    let a = ClockId::new(&mut ids);
    let b = ClockId::new(&mut ids);
    let parameters: Pool<Parameter> = Pool::new(0);
    let mut clocks: Pool<Clock> = Pool::new(1);
    apply_clock_command(&mut clocks, ClockCommand::Add(a, Clock::new(Value::Fixed(10))));
    apply_clock_command(&mut clocks, ClockCommand::Add(b, Clock::new(Value::Fixed(10))));
    assert_eq!(clocks.len(), 1);
    clocks.advance_all(100, &parameters);
    assert_eq!(clocks.get(a.index()).unwrap().ticks(), 0);
    apply_clock_command(&mut clocks, ClockCommand::Start(a));
    apply_clock_command(&mut clocks, ClockCommand::Start(b));
    clocks.advance_all(100, &parameters);
    assert_eq!(clocks.get(a.index()).unwrap().ticks(), 10);
    apply_clock_command(&mut clocks, ClockCommand::SetInterval(a, Value::Fixed(50)));
    apply_clock_command(&mut clocks, ClockCommand::SetInterval(b, Value::Fixed(50)));
    clocks.advance_all(100, &parameters);
    assert_eq!(clocks.get(a.index()).unwrap().ticks(), 12);
    apply_clock_command(&mut clocks, ClockCommand::Pause(a));
    apply_clock_command(&mut clocks, ClockCommand::Pause(b));
    clocks.advance_all(100, &parameters);
    assert_eq!(clocks.get(a.index()).unwrap().ticks(), 12);
    apply_clock_command(&mut clocks, ClockCommand::Stop(a));
    apply_clock_command(&mut clocks, ClockCommand::Stop(b));
    assert_eq!(clocks.get(a.index()).unwrap().ticks(), 0);
    assert!(!clocks.get(a.index()).unwrap().is_ticking());
    assert_eq!(clocks.get(b.index()), None);
}

#[test]
fn commands_change_the_mixer() {
    let mut ids = IdAllocator::new();
    let a = SubTrackId::new(&mut ids);
    let b = SubTrackId::new(&mut ids);
    let parameters: Pool<Parameter> = Pool::new(0);
    let mut mixer = Mixer::new(1);
    apply_mixer_command(&mut mixer, MixerCommand::AddSubTrack(a, Track::new()));
    apply_mixer_command(&mut mixer, MixerCommand::AddSubTrack(b, Track::new()));
    assert_eq!(mixer.num_sub_tracks(), 1);
    apply_mixer_command(&mut mixer, MixerCommand::SetTrackVolume(TrackIndex::Sub(a), Value::Fixed(3)));
    apply_mixer_command(&mut mixer, MixerCommand::SetTrackPanning(TrackIndex::Main, Value::Fixed(4)));
    apply_mixer_command(&mut mixer, MixerCommand::SetTrackVolume(TrackIndex::Sub(b), Value::Fixed(5)));
    let levels = mixer.levels(&parameters);
    assert_eq!(levels[0].panning, 4);
    assert_eq!(levels[0].volume, UNITY);
    assert_eq!(levels[1].volume, 3);
    assert_eq!(levels[1].panning, CENTER);
}

#[test]
fn the_manager_counts_the_room_for_parameters() {
    let mut manager = AudioManager::new(capacities());
    let mut queue: CommandQueue<Command<Tone, Hum>> = CommandQueue::new(8);
    assert!(manager.can_issue(IdKind::Parameter));
    let first = manager.add_parameter(&mut queue, 1).unwrap();
    let second = manager.add_parameter(&mut queue, 2).unwrap();
    assert_eq!(first.index(), 0);
    assert_eq!(second.index(), 1);
    assert_eq!(manager.num(IdKind::Parameter), 2);
    assert_eq!(
        manager.add_parameter(&mut queue, 3),
        Err(AddParameterError::ParameterLimitReached)
    );
    assert_eq!(
        manager.add_parameter(&mut queue, 4),
        Err(AddParameterError::ParameterLimitReached)
    );
    assert_eq!(manager.num(IdKind::Parameter), 2);
    assert_eq!(queue.len(), 2);
    match queue.try_recv() {
        Some(Command::Parameter(ParameterCommand::Add(id, parameter))) => {
            assert_eq!(id, first);
            assert_eq!(parameter, Parameter::new(1));
        },
        _ => panic!("the first command adds the first parameter"),
    }
}

#[test]
fn the_manager_hands_on_what_the_queue_says() {
    let mut manager = AudioManager::new(capacities());
    let mut queue: CommandQueue<Command<Tone, Hum>> = CommandQueue::new(1);
    assert!(manager.add_parameter(&mut queue, 1).is_ok());
    let full = CommandError::QueueFull;
    assert_eq!(manager.add_parameter(&mut queue, 2), Err(AddParameterError::CommandError(full)));
    assert_eq!(
        manager.add_sub_track(&mut queue, Track::new()),
        Err(AddSubTrackError::CommandError(full))
    );
    assert_eq!(
        manager.add_clock(&mut queue, Value::Fixed(1)),
        Err(AddClockError::CommandError(full))
    );
    assert_eq!(
        manager.add_audio_stream(&mut queue, Hum { level: 0 }, TrackIndex::Main),
        Err(AddAudioStreamError::CommandError(full))
    );
    let played =
        manager.play(&mut queue, Tone::new(1, 1), 0, TrackIndex::Main, Metadata { semantic_duration: None });
    assert_eq!(played, Err(PlaySoundError::CommandError(full)));
    assert_eq!(manager.pause(&mut queue, Tween { duration: 0 }), Err(full));
    assert_eq!(manager.resume(&mut queue, Tween { duration: 0 }), Err(full));
    assert_eq!(manager.num(IdKind::Parameter), 1);
    assert_eq!(manager.num(IdKind::SubTrack), 0);
    assert_eq!(manager.num(IdKind::Clock), 0);
    assert_eq!(manager.num(IdKind::AudioStream), 0);
    assert_eq!(manager.num(IdKind::Sound), 0);
    assert_eq!(queue.len(), 1);
}

#[test]
fn the_manager_counts_the_room_for_every_kind_of_resource() {
    let mut manager = AudioManager::new(capacities());
    let mut queue: CommandQueue<Command<Tone, Hum>> = CommandQueue::new(32);
    let nothing = Metadata { semantic_duration: None };
    assert!(manager.add_sub_track(&mut queue, Track::new()).is_ok());
    assert!(manager.add_sub_track(&mut queue, Track::new()).is_ok());
    assert_eq!(
        manager.add_sub_track(&mut queue, Track::new()),
        Err(AddSubTrackError::SubTrackLimitReached)
    );
    assert!(manager.add_clock(&mut queue, Value::Fixed(1)).is_ok());
    assert_eq!(
        manager.add_clock(&mut queue, Value::Fixed(1)),
        Err(AddClockError::ClockLimitReached)
    );
    assert!(manager.add_audio_stream(&mut queue, Hum { level: 0 }, TrackIndex::Main).is_ok());
    assert_eq!(
        manager.add_audio_stream(&mut queue, Hum { level: 0 }, TrackIndex::Main),
        Err(AddAudioStreamError::AudioStreamLimitReached)
    );
    let first = manager.play(&mut queue, Tone::new(1, 1), 5, TrackIndex::Main, nothing).unwrap();
    assert_eq!(first.index(), 0);
    assert_eq!(first.duration(), 5);
    assert!(manager.play(&mut queue, Tone::new(1, 1), 5, TrackIndex::Main, nothing).is_ok());
    assert_eq!(
        manager.play(&mut queue, Tone::new(1, 1), 5, TrackIndex::Main, nothing),
        Err(PlaySoundError::SoundLimitReached)
    );
    assert_eq!(queue.len(), 6);
    manager.sounds_reclaimed(1);
    assert_eq!(manager.num(IdKind::Sound), 1);
    let third = manager.play(&mut queue, Tone::new(1, 1), 5, TrackIndex::Main, nothing).unwrap();
    assert_eq!(third.index(), 2);
    manager.sounds_reclaimed(10);
    assert_eq!(manager.num(IdKind::Sound), 0);
}

#[test]
fn a_loaded_sound_becomes_a_sound_and_a_handle() {
    let (sound, handle) = LoadedTone { level: 3 }.into_sound().unwrap();
    assert_eq!(handle, 3);
    assert!(!sound.finished());
    assert!(LoadedTone { level: -1 }.into_sound().is_err());
    let clocks: Pool<Clock> = Pool::new(0);
    let info = Info::new(&clocks);
    let mut tone = Tone::new(9, 1);
    assert_eq!(tone.process_one(0, &info), flat(9));
    assert!(tone.finished());
}

#[test]
fn a_sound_is_played_and_then_unloaded() {
    let mut manager = AudioManager::new(capacities());
    let mut renderer: Renderer<Tone, Hum> = Renderer::new(capacities());
    let mut queue: CommandQueue<Command<Tone, Hum>> = CommandQueue::new(8);
    let nothing = Metadata { semantic_duration: None };
    let id = manager.play(&mut queue, Tone::new(100, 2), 0, TrackIndex::Main, nothing).unwrap();
    let mut out = vec![flat(-1); 4];
    let reclaimed = renderer.render(&mut queue, 10, &mut out);
    assert_eq!(out, vec![flat(100); 4]);
    assert!(reclaimed.is_empty());
    assert_eq!(renderer.num_sounds(), 1);
    assert_eq!(queue.len(), 0);
    let reclaimed = renderer.render(&mut queue, 10, &mut out);
    assert_eq!(out, vec![flat(100); 4]);
    assert_eq!(reclaimed, vec![id.index()]);
    assert_eq!(renderer.num_sounds(), 0);
    manager.sounds_reclaimed(reclaimed.len());
    assert_eq!(manager.num(IdKind::Sound), 0);
    let reclaimed = renderer.render(&mut queue, 10, &mut out);
    assert_eq!(out, vec![flat(0); 4]);
    assert!(reclaimed.is_empty());
}

#[test]
fn a_sound_for_which_there_is_no_room_is_dropped() {
    let mut ids = IdAllocator::new();
    let mut renderer: Renderer<Tone, Hum> = Renderer::new(capacities());
    let nothing = Metadata { semantic_duration: None };
    for level in [1, 10, 100] {
        let id = SoundId::new(&mut ids, 0, TrackIndex::Main, nothing);
        renderer.apply(Command::Sound(SoundCommand::Play(id, Tone::new(level, 5))));
    }
    assert_eq!(renderer.num_sounds(), 2);
    let mut queue: CommandQueue<Command<Tone, Hum>> = CommandQueue::new(1);
    let mut out = vec![flat(0); 1];
    renderer.render(&mut queue, 1, &mut out);
    assert_eq!(out, vec![flat(11)]);
}

#[test]
fn sounds_are_told_that_a_batch_is_coming() {
    let mut ids = IdAllocator::new();
    let mut renderer: Renderer<Counter, Hum> = Renderer::new(capacities());
    let mut queue: CommandQueue<Command<Counter, Hum>> = CommandQueue::new(4);
    let id = SoundId::new(&mut ids, 0, TrackIndex::Main, Metadata { semantic_duration: None });
    assert_eq!(queue.send(Command::Sound(SoundCommand::Play(id, Counter { announced: 0 }))), Ok(()));
    let mut out = vec![flat(0); 2];
    assert!(renderer.render(&mut queue, 1, &mut out).is_empty());
    assert_eq!(out, vec![Frame::new(1, 0); 2]);
    assert!(renderer.render(&mut queue, 1, &mut out).is_empty());
    assert_eq!(out, vec![Frame::new(2, 0); 2]);
}

#[test]
fn commands_are_applied_in_the_order_in_which_they_were_sent() {
    let mut manager = AudioManager::new(capacities());
    let mut renderer: Renderer<Tone, Hum> = Renderer::new(capacities());
    let mut queue: CommandQueue<Command<Tone, Hum>> = CommandQueue::new(8);
    let id = manager.add_parameter(&mut queue, 5).unwrap();
    let at_once = Tween { duration: 0 };
    for target in [6, 7, 8] {
        let command = ParameterCommand::SetValue { id, target, tween: at_once };
        assert_eq!(queue.send(Command::Parameter(command)), Ok(()));
    }
    let mut out: Vec<Frame> = Vec::new();
    renderer.render(&mut queue, 1, &mut out);
    assert_eq!(renderer.parameter_value(id), Some(8));
    let mut ids = IdAllocator::new();
    ids.next(IdKind::Parameter);
    let stranger = ParameterId::new(&mut ids);
    assert_eq!(renderer.parameter_value(stranger), None);
}

#[test]
fn a_sub_track_follows_a_parameter() {
    let mut manager = AudioManager::new(capacities());
    let mut renderer: Renderer<Tone, Hum> = Renderer::new(capacities());
    let mut queue: CommandQueue<Command<Tone, Hum>> = CommandQueue::new(8);
    let nothing = Metadata { semantic_duration: None };
    let volume = manager.add_parameter(&mut queue, UNITY).unwrap();
    let track = Track::new().volume(Value::Parameter(volume));
    let sub = TrackIndex::Sub(manager.add_sub_track(&mut queue, track).unwrap());
    manager.play(&mut queue, Tone::new(1_000, 100), 0, sub, nothing).unwrap();
    manager.play(&mut queue, Tone::new(7, 100), 0, TrackIndex::Main, nothing).unwrap();
    let fade = ParameterCommand::SetValue { id: volume, target: 0, tween: Tween { duration: 4 } };
    assert_eq!(queue.send(Command::Parameter(fade)), Ok(()));
    let mut out = vec![flat(0); 1];
    let mut heard = Vec::new();
    for _ in 0..6 {
        renderer.render(&mut queue, 1, &mut out);
        heard.push(out[0]);
    }
    assert_eq!(heard, vec![flat(757), flat(507), flat(257), flat(7), flat(7), flat(7)]);
    assert_eq!(renderer.parameter_value(volume), Some(0));
}

#[test]
fn a_sound_on_a_track_that_is_not_there_is_not_heard() {
    let mut ids = IdAllocator::new();
    let mut renderer: Renderer<Tone, Hum> = Renderer::new(capacities());
    let mut queue: CommandQueue<Command<Tone, Hum>> = CommandQueue::new(8);
    let stranger = TrackIndex::Sub(SubTrackId::new(&mut ids));
    let id = SoundId::new(&mut ids, 0, stranger, Metadata { semantic_duration: None });
    renderer.apply(Command::Sound(SoundCommand::Play(id, Tone::new(50, 1))));
    let mut out = vec![flat(9); 3];
    let reclaimed = renderer.render(&mut queue, 1, &mut out);
    assert_eq!(out, vec![flat(0); 3]);
    assert_eq!(reclaimed, vec![0]);
}

#[test]
fn clocks_tick_with_the_render_ticks() {
    let mut manager = AudioManager::new(capacities());
    let mut renderer: Renderer<Tone, Hum> = Renderer::new(capacities());
    let mut queue: CommandQueue<Command<Tone, Hum>> = CommandQueue::new(8);
    let clock = manager.add_clock(&mut queue, Value::Fixed(250)).unwrap();
    assert_eq!(queue.send(Command::Clock(ClockCommand::Start(clock))), Ok(()));
    let mut out: Vec<Frame> = Vec::new();
    for tick in 1..=10u64 {
        renderer.render(&mut queue, 100, &mut out);
        assert_eq!(renderer.clock_ticks(clock), Some(tick * 100 / 250));
    }
    assert_eq!(renderer.clock_ticks(clock), Some(4));
    let mut sound = Tone::new(100, 3);
    sound.clock = Some(clock);
    let nothing = Metadata { semantic_duration: None };
    manager.play(&mut queue, sound, 0, TrackIndex::Main, nothing).unwrap();
    let mut out = vec![flat(0); 1];
    renderer.render(&mut queue, 250, &mut out);
    assert_eq!(out, vec![flat(105)]);
}

#[test]
fn audio_streams_play_on_their_tracks() {
    let mut manager = AudioManager::new(capacities());
    let mut renderer: Renderer<Tone, Hum> = Renderer::new(capacities());
    let mut queue: CommandQueue<Command<Tone, Hum>> = CommandQueue::new(8);
    let track = Track::new().volume(Value::Fixed(CENTER));
    let sub = TrackIndex::Sub(manager.add_sub_track(&mut queue, track).unwrap());
    manager.add_audio_stream(&mut queue, Hum { level: 40 }, sub).unwrap();
    let mut out = vec![flat(0); 2];
    assert!(renderer.render(&mut queue, 6, &mut out).is_empty());
    assert_eq!(out, vec![Frame::new(20, 3); 2]);
    let mut ids = IdAllocator::new();
    ids.next(IdKind::AudioStream);
    let second = kira::id::AudioStreamId::new(&mut ids);
    let wrapper = AudioStreamWrapper::new(Hum { level: 1_000 }, TrackIndex::Main);
    renderer.apply(Command::AudioStream(AudioStreamCommand::Add(second, wrapper)));
    renderer.render(&mut queue, 6, &mut out);
    assert_eq!(out, vec![Frame::new(20, 3); 2]);
}

#[test]
fn pausing_the_renderer_fades_all_sounds_out() {
    let mut manager = AudioManager::new(capacities());
    let mut renderer: Renderer<Tone, Hum> = Renderer::new(capacities());
    let mut queue: CommandQueue<Command<Tone, Hum>> = CommandQueue::new(8);
    let nothing = Metadata { semantic_duration: None };
    let short = manager.play(&mut queue, Tone::new(1_000, 5), 0, TrackIndex::Main, nothing);
    manager.play(&mut queue, Tone::new(24, 100), 0, TrackIndex::Main, nothing).unwrap();
    assert_eq!(manager.pause(&mut queue, Tween { duration: 4 }), Ok(()));
    let mut out = vec![flat(0); 1];
    let mut heard = Vec::new();
    let mut states = Vec::new();
    for _ in 0..6 {
        assert!(renderer.render(&mut queue, 1, &mut out).is_empty());
        heard.push(out[0]);
        states.push(renderer.playback().state());
    }
    assert_eq!(heard, vec![flat(768), flat(512), flat(256), flat(0), flat(0), flat(0)]);
    assert_eq!(
        states,
        vec![
            PlaybackState::Pausing,
            PlaybackState::Pausing,
            PlaybackState::Pausing,
            PlaybackState::Paused,
            PlaybackState::Paused,
            PlaybackState::Paused,
        ]
    );
    assert_eq!(renderer.num_sounds(), 2);
    assert_eq!(manager.resume(&mut queue, Tween { duration: 2 }), Ok(()));
    let mut heard = Vec::new();
    let mut left = Vec::new();
    for _ in 0..4 {
        left.push(renderer.render(&mut queue, 1, &mut out));
        heard.push(out[0]);
    }
    assert_eq!(heard, vec![flat(0), flat(512), flat(24), flat(24)]);
    assert_eq!(left, vec![vec![], vec![short.unwrap().index()], vec![], vec![]]);
    assert_eq!(renderer.playback().state(), PlaybackState::Playing);
    assert_eq!(renderer.num_sounds(), 1);
}

#[test]
fn handles_turn_requests_into_commands() {
    let mut manager = AudioManager::new(capacities());
    let mut renderer: Renderer<Tone, Hum> = Renderer::new(capacities());
    let mut queue: CommandQueue<Command<Tone, Hum>> = CommandQueue::new(16);
    let nothing = Metadata { semantic_duration: None };
    let parameter = ParameterHandle::new(manager.add_parameter(&mut queue, 0).unwrap());
    let clock = ClockHandle::new(manager.add_clock(&mut queue, Value::Fixed(10)).unwrap());
    let sub = manager.add_sub_track(&mut queue, Track::new()).unwrap();
    let track = TrackHandle::new(TrackIndex::Sub(sub));
    assert_eq!(track.id(), TrackIndex::Sub(sub));
    manager.play(&mut queue, Tone::new(100, 100), 0, track.id(), nothing).unwrap();
    assert_eq!(parameter.set(&mut queue, 8, Tween { duration: 4 }), Ok(()));
    assert_eq!(clock.start(&mut queue), Ok(()));
    assert_eq!(track.set_volume(&mut queue, Value::Fixed(CENTER)), Ok(()));
    assert_eq!(track.set_panning(&mut queue, Value::Fixed(0)), Ok(()));
    let mut out = vec![flat(0); 1];
    renderer.render(&mut queue, 2, &mut out);
    assert_eq!(out, vec![Frame::new(50, 0)]);
    assert_eq!(renderer.parameter_value(parameter.id()), Some(4));
    assert_eq!(renderer.clock_ticks(clock.id()), Some(0));
    assert_eq!(parameter.pause(&mut queue), Ok(()));
    assert_eq!(clock.set_interval(&mut queue, Value::Fixed(1)), Ok(()));
    renderer.render(&mut queue, 2, &mut out);
    assert_eq!(renderer.parameter_value(parameter.id()), Some(4));
    assert_eq!(renderer.clock_ticks(clock.id()), Some(4));
    assert_eq!(parameter.resume(&mut queue), Ok(()));
    assert_eq!(clock.pause(&mut queue), Ok(()));
    renderer.render(&mut queue, 2, &mut out);
    assert_eq!(renderer.parameter_value(parameter.id()), Some(8));
    assert_eq!(renderer.clock_ticks(clock.id()), Some(4));
    assert_eq!(clock.stop(&mut queue), Ok(()));
    assert_eq!(TrackHandle::new(TrackIndex::Main).set_volume(&mut queue, Value::Fixed(0)), Ok(()));
    renderer.render(&mut queue, 2, &mut out);
    assert_eq!(renderer.clock_ticks(clock.id()), Some(0));
    assert_eq!(out, vec![flat(0)]);
}

#[test]
fn handles_hand_on_what_the_queue_says() {
    let mut ids = IdAllocator::new();
    let mut queue: CommandQueue<Command<Tone, Hum>> = CommandQueue::new(0);
    let full = Err(CommandError::QueueFull);
    let parameter = ParameterHandle::new(ParameterId::new(&mut ids));
    let clock = ClockHandle::new(ClockId::new(&mut ids));
    let track = TrackHandle::new(TrackIndex::Main);
    assert_eq!(parameter.set(&mut queue, 1, Tween { duration: 1 }), full);
    assert_eq!(parameter.pause(&mut queue), full);
    assert_eq!(parameter.resume(&mut queue), full);
    assert_eq!(clock.set_interval(&mut queue, Value::Fixed(1)), full);
    assert_eq!(clock.start(&mut queue), full);
    assert_eq!(clock.pause(&mut queue), full);
    assert_eq!(clock.stop(&mut queue), full);
    assert_eq!(track.set_volume(&mut queue, Value::Fixed(1)), full);
    assert_eq!(track.set_panning(&mut queue, Value::Fixed(1)), full);
    assert_eq!(queue.len(), 0);
}

#[test]
fn time_passes_for_a_renderer_without_a_batch() {
    let mut manager = AudioManager::new(capacities());
    let mut renderer: Renderer<Tone, Hum> = Renderer::new(capacities());
    let mut queue: CommandQueue<Command<Tone, Hum>> = CommandQueue::new(8);
    let id = manager.add_parameter(&mut queue, 0).unwrap();
    let clock = manager.add_clock(&mut queue, Value::Parameter(id)).unwrap();
    for command in queue.try_recv_all() {
        renderer.apply(command);
    }
    let rise = ParameterCommand::SetValue { id, target: 10, tween: Tween { duration: 10 } };
    renderer.apply(Command::Parameter(rise));
    renderer.apply(Command::Clock(ClockCommand::Start(clock)));
    renderer.advance(5);
    assert_eq!(renderer.parameter_value(id), Some(5));
    assert_eq!(renderer.clock_ticks(clock), Some(1));
    renderer.advance(5);
    assert_eq!(renderer.parameter_value(id), Some(10));
    assert_eq!(renderer.clock_ticks(clock), Some(1));
    renderer.advance(25);
    assert_eq!(renderer.clock_ticks(clock), Some(4));
}
