//! Chaikin oscillator: configuration, validation and the zero-line signal of
//! a streaming accumulation/distribution oscillator.
pub mod chaikin_oscillator;
pub mod cross;
pub mod ma;
