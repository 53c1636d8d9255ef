//! Fixed-point synthesis engine of a polyphonic wavetable synthesizer: envelope
//! generators, wavetable oscillators with glide, a voice pool and the word codec
//! that carries control events between the two processor cores.

pub mod adsr;
pub mod wavetables;
pub mod intercore;
pub mod synth;
pub mod metrics;
pub mod errors;
pub mod dials;
