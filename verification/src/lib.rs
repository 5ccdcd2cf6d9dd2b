//! The timing, sequencing and buffering core of a granular audio engine.
//!
//! Everything here works on whole numbers: time is counted in microseconds
//! by a clock that the samples drive, frequencies are counted in millihertz
//! and levels in millionths of full scale. Audio samples themselves are moved
//! around without being looked at; where one has to be scaled or two have to
//! be added, the caller says how, so the engine around this crate is free to
//! use whatever sample type it likes.

pub mod clock;
pub mod effects;
pub mod oscillator;
pub mod player;
pub mod sample;
pub mod sound;
pub mod state;
