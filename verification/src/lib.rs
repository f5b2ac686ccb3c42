//! A verified core for a MIDI auto-player: a tempo-aware extractor that turns
//! raw MIDI bytes into a timed note sequence, a brute-force transposition
//! tuner over a fixed playable range, a drift-corrected playback scheduler
//! modelled as a pure step function, and a letter/phone transcript encoder.

pub mod events;
pub mod extract;
pub mod parse;
pub mod sched;
pub mod transcript;
pub mod tuner;

pub use events::Event;
