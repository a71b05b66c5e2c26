//! A deterministic core for real-time audio mixing and playback.
//!
//! The control side ([`manager`], [`handle`]) makes identifiers ([`id`]) and
//! sends commands through a bounded queue ([`command`]). The render side
//! ([`renderer`]) owns every resource in pools of fixed capacity ([`pool`]):
//! parameters ([`parameter`]), clocks ([`clock`]), the tracks of the mixer
//! ([`mixer`]), sounds ([`sound`]) and audio streams ([`audio_stream`]). Once
//! per render tick it applies the commands, lets time pass and mixes a batch
//! of frames ([`frame`]).
//!
//! Everything is counted in whole numbers, so that every result is the same
//! on every machine: times are microseconds, levels are fixed-point numbers
//! with [`frame::UNITY`] for "unchanged", and samples are `i32`.
//!
//! Some functions ask that a value is well-formed (`wf`). Every value that
//! a constructor of this crate has made is well-formed, and every function
//! of this crate keeps it so.

pub mod audio_stream;
pub mod clock;
pub mod command;
pub mod error;
pub mod frame;
pub mod handle;
pub mod id;
pub mod info;
pub mod manager;
pub mod mixer;
pub mod parameter;
pub mod playback;
pub mod pool;
pub mod renderer;
pub mod sound;
pub mod tween;
pub mod value;
