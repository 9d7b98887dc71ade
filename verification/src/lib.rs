//! Synthesis of a single audio signal: an oscillator, additive harmonics and noise,
//! one-pole filters, fades, a feedback delay and peak normalization, applied in that
//! order to one buffer, together with a descriptor that names what was applied.
//!
//! All quantities are decimal fixed-point numbers in an `i64`, with [`fixed::ONE`] standing
//! for 1.0. Arithmetic saturates instead of wrapping, so every stage is defined on every
//! buffer. Each stage has a specification function that says what it makes of a signal,
//! and the executable stage is proved to compute exactly that.
//!
//! The only thing that is not determined by a [`config::WavGenerator`] is the noise, which
//! comes from the `rand` crate. Every function that draws random numbers has a counterpart
//! that takes the numbers as an argument instead.

pub mod fixed;
pub mod sine;
pub mod phase;
pub mod config;
pub mod oscillator;
pub mod harmonics;
pub mod noise;
pub mod filter;
pub mod effects;
pub mod pipeline;
pub mod text;
pub mod level;
pub mod descriptor;
pub mod pcm;
pub mod parse;
