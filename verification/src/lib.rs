//! A note-to-signal synthesis engine for simple monophonic songs.
//!
//! A song is an ordered list of notes, each a pitch (or rest) with a length
//! relative to a quarter-note unit. The library turns such a song into
//! per-sample synthesis commands for a host audio backend, and into
//! 16-bit hardware-timer durations and state-machine transitions for an
//! interrupt-driven buzzer backend.

pub mod abc;
pub mod args;
pub mod codegen;
pub mod duration;
pub mod parse_tree;
pub mod parser;
pub mod player;
pub mod print_wrappers;
pub mod sequencer;
pub mod text;
pub mod timer_duration;
pub mod tone;
