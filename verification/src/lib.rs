//! Verified core of a MIDI-driven cue pad: a performer triggers sound-effect
//! and background-music cues from a MIDI controller, and this library decides
//! what the audio backend must do.
//!
//! The library is pure logic. It decodes raw MIDI messages into semantic
//! events, keeps the per-cue playback state (volume, live handle) and the
//! single "active background track" slot, and turns each event into a list of
//! [`player::AudioAction`] commands. Performing those commands on a real audio
//! device, reading the configuration file and listening on a MIDI port are
//! left to the embedding program.

pub mod coordinator;
pub mod decoder;
pub mod keys;
pub mod laws;
pub mod player;
pub mod registry;
