//! A live-coded music sequencer: the discrete core of the rendering pipeline.
//!
//! The crate works on integers only. Pitches, tempo, mix weights and read
//! positions are exact integers or ratios of integers; turning them into
//! waveforms is left to the caller.

pub mod arith;
pub mod chromatic;
pub mod grid;
pub mod keyed;
pub mod mix;
pub mod pipeline;
pub mod postproc;
pub mod sampler;
pub mod score;
pub mod text;
pub mod util;
