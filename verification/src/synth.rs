//! Synthesizer parameters.

use vstd::prelude::*;

verus! {

/// A parameter of the synthesizer with its new value: four parameters of each
/// of the two operators `A` and `B`.
#[derive(Clone, Copy, Debug, PartialEq, Eq, Structural)]
pub enum SynthParam {
    A1(u8),
    A2(u8),
    A3(u8),
    A4(u8),
    B1(u8),
    B2(u8),
    B3(u8),
    B4(u8),
}

} // verus!
