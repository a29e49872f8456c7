//! Control-to-sound core of a position-driven theremin.
//!
//! A position on a control surface, read from a text file or taken from a
//! marker in a camera frame, picks a tone ([`mapper`], [`control`],
//! [`aruco`]); the tone passes through a shared cell ([`shared`]) to an
//! oscillator that renders it sample by sample ([`oscillator`]). Beside that
//! stands a playback adapter whose pitch the keys change ([`pitch`],
//! [`commands`]).
//!
//! Every quantity is a fixed-point number with six decimal places, held in an
//! `i64` that counts millionths (see [`units`]). Reading files, cameras and
//! keys, the audio device and the sine itself are the caller's part: where a
//! function needs one of them it takes a value or a function for it.

pub mod aruco;
pub mod camera;
pub mod commands;
pub mod config;
pub mod control;
pub mod decimal;
pub mod landmarks;
pub mod mapper;
pub mod oscillator;
pub mod pitch;
pub mod shared;
pub mod units;
