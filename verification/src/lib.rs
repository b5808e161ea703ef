//! The control logic of a small polyphonic FM synthesizer: the phase machine of
//! the ADSR envelopes, round-robin voice allocation, the oscilloscope's sample
//! ring, MIDI message interpretation and MIDI input port selection.

pub mod envelope;
pub mod midi;
pub mod ports;
pub mod samples;
pub mod synth;
pub mod voices;

use vstd::prelude::*;

verus! {

/// The sample rate, in samples per second, at which the synthesizer runs.
pub const SAMPLE_RATE: usize = 44100;

} // verus!
