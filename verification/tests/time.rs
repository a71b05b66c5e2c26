use kira::clock::Clock;
use kira::frame::UNITY;
use kira::id::{ClockId, IdAllocator};
use kira::info::Info;
use kira::parameter::Parameter;
use kira::playback::{Playback, StartTime};
use kira::pool::Pool;
use kira::sound::PlaybackState;
use kira::tween::{Transition, Tween};
use kira::value::Value;

fn no_clocks() -> Pool<Clock> {
    Pool::new(0)
}

#[test]
fn a_transition_covers_its_way_evenly() {
    let mut up = Transition::begin(0, 1_000, Tween { duration: 100 });
    assert_eq!(up.current(), 0);
    assert!(!up.is_complete());
    up.advance(25);
    assert_eq!(up.current(), 250);
    up.advance(50);
    assert_eq!(up.current(), 750);
    up.advance(24);
    assert_eq!(up.current(), 990);
    assert!(!up.is_complete());
    up.advance(1);
    assert!(up.is_complete());
    assert_eq!(up.current(), 1_000);
    up.advance(u64::MAX);
    assert_eq!(up.current(), 1_000);
    assert_eq!(up.elapsed, 100);
}

#[test]
fn a_transition_rounds_towards_its_start() {
    let mut up = Transition::begin(0, 10, Tween { duration: 3 });
    up.advance(1);
    assert_eq!(up.current(), 3);
    up.advance(1);
    assert_eq!(up.current(), 6);
    let mut down = Transition::begin(10, 0, Tween { duration: 3 });
    down.advance(1);
    assert_eq!(down.current(), 7);
    down.advance(1);
    assert_eq!(down.current(), 4);
    down.advance(1);
    assert_eq!(down.current(), 0);
}

#[test]
fn a_transition_spans_the_whole_range_of_values() {
    let mut wide = Transition::begin(i32::MIN, i32::MAX, Tween { duration: u64::MAX });
    assert_eq!(wide.current(), i32::MIN);
    wide.advance(u64::MAX - 1);
    assert_eq!(wide.current(), i32::MAX - 1);
    wide.advance(1);
    assert_eq!(wide.current(), i32::MAX);
    let mut back = Transition::begin(i32::MAX, i32::MIN, Tween { duration: 2 });
    back.advance(1);
    assert_eq!(back.current(), 0);
}

#[test]
fn a_transition_without_duration_is_complete_at_once() {
    let at_once = Transition::begin(5, 9, Tween { duration: 0 });
    assert!(at_once.is_complete());
    assert_eq!(at_once.current(), 9);
}

#[test]
fn a_parameter_moves_towards_its_target() {
    let mut parameter = Parameter::new(100);
    assert_eq!(parameter.value(), 100);
    assert!(!parameter.is_tweening());
    assert!(!parameter.update(1_000));
    assert_eq!(parameter.value(), 100);
    parameter.set(200, Tween { duration: 10 });
    assert!(parameter.is_tweening());
    assert_eq!(parameter.value(), 100);
    assert!(!parameter.update(4));
    assert_eq!(parameter.value(), 140);
    assert!(parameter.update(6));
    assert_eq!(parameter.value(), 200);
    assert!(!parameter.is_tweening());
    assert!(!parameter.update(6));
    assert_eq!(parameter.value(), 200);
}

#[test]
fn a_new_target_replaces_the_one_in_flight() {
    let mut parameter = Parameter::new(0);
    parameter.set(100, Tween { duration: 10 });
    parameter.update(5);
    assert_eq!(parameter.value(), 50);
    parameter.set(0, Tween { duration: 5 });
    parameter.update(1);
    assert_eq!(parameter.value(), 40);
    assert!(parameter.update(4));
    assert_eq!(parameter.value(), 0);
}

#[test]
fn a_paused_parameter_keeps_what_it_has_covered() {
    let mut parameter = Parameter::new(0);
    parameter.set(100, Tween { duration: 10 });
    parameter.update(3);
    parameter.pause();
    assert!(!parameter.update(100));
    assert_eq!(parameter.value(), 30);
    assert!(parameter.is_tweening());
    parameter.resume();
    assert!(!parameter.update(3));
    assert_eq!(parameter.value(), 60);
    assert!(parameter.update(4));
    assert_eq!(parameter.value(), 100);
}

#[test]
fn a_target_without_duration_is_reached_at_the_next_update() {
    let mut parameter = Parameter::new(1);
    parameter.set(2, Tween { duration: 0 });
    assert_eq!(parameter.value(), 1);
    assert!(parameter.update(0));
    assert_eq!(parameter.value(), 2);
}

#[test]
fn a_clock_counts_the_whole_intervals_that_have_passed() {
    let mut clock = Clock::new(Value::Fixed(250));
    clock.start();
    let mut counted = 0;
    for tick in 1..=10u64 {
        counted += clock.update(100, 250);
        assert_eq!(clock.ticks(), tick * 100 / 250);
        assert_eq!(clock.fraction, tick * 100 % 250);
    }
    assert_eq!(clock.ticks(), 4);
    assert_eq!(counted, 4);
    let mut coarse = Clock::new(Value::Fixed(7));
    coarse.start();
    for tick in 1..=7u64 {
        coarse.update(10, 7);
        assert_eq!(coarse.ticks(), tick * 10 / 7);
    }
    assert_eq!(coarse.ticks(), 10);
    assert_eq!(coarse.fraction, 0);
}

#[test]
fn a_clock_counts_several_ticks_in_one_update() {
    let mut clock = Clock::new(Value::Fixed(3));
    clock.start();
    assert_eq!(clock.update(10, 3), 3);
    assert_eq!(clock.ticks(), 3);
    assert_eq!(clock.fraction, 1);
    assert_eq!(clock.update(2, 3), 1);
    assert_eq!(clock.fraction, 0);
}

#[test]
fn a_clock_that_does_not_run_stays_where_it_is() {
    let mut clock = Clock::new(Value::Fixed(10));
    assert!(!clock.is_ticking());
    assert_eq!(clock.update(100, 10), 0);
    assert_eq!(clock.ticks(), 0);
    clock.start();
    assert!(clock.is_ticking());
    assert_eq!(clock.update(25, 10), 2);
    clock.pause();
    assert_eq!(clock.update(100, 10), 0);
    assert_eq!(clock.ticks(), 2);
    assert_eq!(clock.fraction, 5);
    clock.start();
    assert_eq!(clock.update(5, 10), 1);
    assert_eq!(clock.ticks(), 3);
    clock.stop();
    assert_eq!(clock.ticks(), 0);
    assert_eq!(clock.fraction, 0);
    assert!(!clock.is_ticking());
}

#[test]
fn a_clock_without_a_positive_interval_stays_where_it_is() {
    let mut clock = Clock::new(Value::Fixed(0));
    clock.start();
    assert_eq!(clock.update(100, 0), 0);
    assert_eq!(clock.update(100, -5), 0);
    assert_eq!(clock.ticks(), 0);
    assert_eq!(clock.fraction, 0);
    clock.set_interval(Value::Fixed(50));
    assert_eq!(clock.interval, Value::Fixed(50));
    assert_eq!(clock.update(100, 50), 2);
}

#[test]
fn a_clock_stops_counting_at_the_largest_number() {
    let mut clock = Clock::new(Value::Fixed(1));
    clock.start();
    assert_eq!(clock.update(u64::MAX, 1), u64::MAX);
    assert_eq!(clock.update(u64::MAX, 1), 0);
    assert_eq!(clock.ticks(), u64::MAX);
}

#[test]
fn info_shows_the_clocks() {
    let mut ids = IdAllocator::new();
    let known = ClockId::new(&mut ids);
    let unknown = ClockId::new(&mut ids);
    let mut clocks: Pool<Clock> = Pool::new(2);
    let mut clock = Clock::new(Value::Fixed(10));
    clock.start();
    clock.update(35, 10);
    assert_eq!(clocks.insert(known.index(), clock), Ok(()));
    let info = Info::new(&clocks);
    assert_eq!(info.clock_ticks(known), Some(3));
    assert_eq!(info.clock_is_ticking(known), Some(true));
    assert_eq!(info.clock_ticks(unknown), None);
    assert_eq!(info.clock_is_ticking(unknown), None);
}

#[test]
fn pausing_fades_out_over_the_time_of_the_tween() {
    let clocks = no_clocks();
    let info = Info::new(&clocks);
    let mut playback = Playback::new();
    assert_eq!(playback.state(), PlaybackState::Playing);
    assert_eq!(playback.amplitude(), UNITY);
    playback.pause(Tween { duration: 100 });
    assert_eq!(playback.state(), PlaybackState::Pausing);
    assert_eq!(playback.amplitude(), UNITY);
    playback.update(25, &info);
    assert_eq!(playback.state(), PlaybackState::Pausing);
    assert_eq!(playback.amplitude(), 49_152);
    playback.update(25, &info);
    assert_eq!(playback.state(), PlaybackState::Pausing);
    assert_eq!(playback.amplitude(), 32_768);
    playback.update(49, &info);
    assert_eq!(playback.state(), PlaybackState::Pausing);
    assert_eq!(playback.amplitude(), 656);
    playback.update(1, &info);
    assert_eq!(playback.state(), PlaybackState::Paused);
    assert_eq!(playback.amplitude(), 0);
    playback.update(1_000, &info);
    assert_eq!(playback.state(), PlaybackState::Paused);
    assert_eq!(playback.amplitude(), 0);
}

#[test]
fn the_level_never_rises_while_a_sound_is_pausing() {
    let clocks = no_clocks();
    let info = Info::new(&clocks);
    let mut playback = Playback::new();
    playback.pause(Tween { duration: 1_000 });
    let mut before = playback.amplitude();
    let mut elapsed = 0;
    for dt in [1u64, 7, 0, 13, 100, 333, 1, 1, 500, 44, 9] {
        playback.update(dt, &info);
        elapsed += dt;
        assert!(playback.amplitude() <= before);
        assert!(playback.amplitude() >= 0);
        if elapsed < 1_000 {
            assert_eq!(playback.state(), PlaybackState::Pausing);
        } else {
            assert_eq!(playback.state(), PlaybackState::Paused);
            assert_eq!(playback.amplitude(), 0);
        }
        before = playback.amplitude();
    }
    assert_eq!(playback.state(), PlaybackState::Paused);
}

#[test]
fn a_pause_without_a_fade_takes_one_render_tick() {
    let clocks = no_clocks();
    let info = Info::new(&clocks);
    let mut playback = Playback::new();
    playback.pause(Tween { duration: 0 });
    assert_eq!(playback.state(), PlaybackState::Pausing);
    playback.update(0, &info);
    assert_eq!(playback.state(), PlaybackState::Paused);
    assert_eq!(playback.amplitude(), 0);
}

#[test]
fn resuming_waits_for_its_time_and_fades_in() {
    let clocks = no_clocks();
    let info = Info::new(&clocks);
    let mut playback = Playback::new();
    playback.pause(Tween { duration: 0 });
    playback.update(1, &info);
    playback.resume_at(StartTime::Immediate, Tween { duration: 10 });
    assert_eq!(playback.state(), PlaybackState::WaitingToResume);
    playback.update(5, &info);
    assert_eq!(playback.state(), PlaybackState::Resuming);
    assert_eq!(playback.amplitude(), 0);
    playback.update(5, &info);
    assert_eq!(playback.state(), PlaybackState::Resuming);
    assert_eq!(playback.amplitude(), 32_768);
    playback.update(5, &info);
    assert_eq!(playback.state(), PlaybackState::Playing);
    assert_eq!(playback.amplitude(), UNITY);
}

#[test]
fn resuming_after_a_delay() {
    let clocks = no_clocks();
    let info = Info::new(&clocks);
    let mut playback = Playback::new();
    playback.pause(Tween { duration: 0 });
    playback.update(1, &info);
    playback.resume_at(StartTime::Delayed(30), Tween { duration: 0 });
    playback.update(10, &info);
    assert_eq!(playback.state(), PlaybackState::WaitingToResume);
    assert_eq!(playback.resume_at, StartTime::Delayed(20));
    playback.update(10, &info);
    assert_eq!(playback.state(), PlaybackState::WaitingToResume);
    playback.update(10, &info);
    assert_eq!(playback.state(), PlaybackState::Resuming);
    playback.update(0, &info);
    assert_eq!(playback.state(), PlaybackState::Playing);
    assert_eq!(playback.amplitude(), UNITY);
}

#[test]
fn resuming_at_a_tick_of_a_clock() {
    let mut ids = IdAllocator::new();
    let id = ClockId::new(&mut ids);
    let missing = ClockId::new(&mut ids);
    let mut clocks: Pool<Clock> = Pool::new(1);
    let mut clock = Clock::new(Value::Fixed(10));
    clock.start();
    assert_eq!(clocks.insert(id.index(), clock), Ok(()));
    let mut playback = Playback::new();
    let mut lost = Playback::new();
    {
        let info = Info::new(&clocks);
        playback.pause(Tween { duration: 0 });
        playback.update(1, &info);
        playback.resume_at(StartTime::ClockTime { clock: id, ticks: 2 }, Tween { duration: 0 });
        lost.pause(Tween { duration: 0 });
        lost.update(1, &info);
        lost.resume_at(StartTime::ClockTime { clock: missing, ticks: 0 }, Tween { duration: 0 });
        playback.update(100, &info);
        lost.update(100, &info);
        assert_eq!(playback.state(), PlaybackState::WaitingToResume);
        assert_eq!(lost.state(), PlaybackState::WaitingToResume);
    }
    clocks.get_mut(id.index()).unwrap().update(20, 10);
    let info = Info::new(&clocks);
    playback.update(1, &info);
    lost.update(1, &info);
    assert_eq!(playback.state(), PlaybackState::Resuming);
    assert_eq!(lost.state(), PlaybackState::WaitingToResume);
    assert!(StartTime::ClockTime { clock: id, ticks: 2 }.has_arrived(0, &info));
    assert!(!StartTime::ClockTime { clock: id, ticks: 3 }.has_arrived(0, &info));
    assert!(StartTime::Delayed(4).has_arrived(4, &info));
    assert!(!StartTime::Delayed(5).has_arrived(4, &info));
    assert_eq!(StartTime::Delayed(5).after(4), StartTime::Delayed(1));
    assert_eq!(StartTime::Delayed(5).after(9), StartTime::Delayed(0));
    assert_eq!(StartTime::Immediate.after(9), StartTime::Immediate);
}

#[test]
fn stopping_fades_out_for_good() {
    let clocks = no_clocks();
    let info = Info::new(&clocks);
    let mut playback = Playback::new();
    playback.stop(Tween { duration: 4 });
    assert_eq!(playback.state(), PlaybackState::Stopping);
    assert!(!playback.finished());
    playback.update(1, &info);
    assert_eq!(playback.amplitude(), 49_152);
    playback.pause(Tween { duration: 1 });
    playback.resume_at(StartTime::Immediate, Tween { duration: 1 });
    assert_eq!(playback.state(), PlaybackState::Stopping);
    playback.update(3, &info);
    assert_eq!(playback.state(), PlaybackState::Stopped);
    assert_eq!(playback.amplitude(), 0);
    assert!(playback.finished());
}

#[test]
fn a_pausing_sound_can_be_stopped() {
    let clocks = no_clocks();
    let info = Info::new(&clocks);
    let mut playback = Playback::new();
    playback.pause(Tween { duration: 100 });
    playback.update(50, &info);
    playback.stop(Tween { duration: 10 });
    assert_eq!(playback.state(), PlaybackState::Stopping);
    playback.update(5, &info);
    assert_eq!(playback.amplitude(), 16_384);
    playback.update(5, &info);
    assert!(playback.finished());
}

#[test]
fn nothing_leads_out_of_stopped() {
    let clocks = no_clocks();
    let info = Info::new(&clocks);
    let mut playback = Playback::new();
    playback.stop(Tween { duration: 0 });
    playback.update(0, &info);
    assert!(playback.finished());
    let stopped = playback;
    playback.pause(Tween { duration: 3 });
    assert_eq!(playback, stopped);
    playback.resume_at(StartTime::Immediate, Tween { duration: 3 });
    assert_eq!(playback, stopped);
    playback.stop(Tween { duration: 3 });
    assert_eq!(playback, stopped);
    playback.update(1_000, &info);
    assert_eq!(playback, stopped);
    assert!(playback.finished());
    assert_eq!(playback.state(), PlaybackState::Stopped);
}

#[test]
fn requests_that_do_not_fit_the_state_change_nothing() {
    let clocks = no_clocks();
    let info = Info::new(&clocks);
    let mut playing = Playback::new();
    let fresh = playing;
    playing.resume_at(StartTime::Immediate, Tween { duration: 3 });
    assert_eq!(playing, fresh);
    playing.update(10, &info);
    assert_eq!(playing, fresh);
    let mut paused = Playback::new();
    paused.pause(Tween { duration: 0 });
    paused.update(0, &info);
    let at_rest = paused;
    paused.pause(Tween { duration: 3 });
    assert_eq!(paused, at_rest);
    paused.stop(Tween { duration: 3 });
    assert_eq!(paused, at_rest);
}
