//! The parts of an MVS record that the decoder works on.

use vstd::prelude::*;

verus! {

/// The quantisation steps of the coefficients, row by row.
#[derive(Clone, Copy, Debug, PartialEq, Eq)]
pub struct MvsTables {
    pub luminance: [u8; 64],
    pub chrominance: [u8; 64],
}

/// A full-frame record: the two scale thresholds and the two bit streams.
#[derive(Clone, Copy, Debug)]
pub struct MvsFullRecord<'a> {
    pub scale_threshold_a: u8,
    pub scale_threshold_b: u8,
    pub mode_stream: &'a [u8],
    pub data_stream: &'a [u8],
}

} // verus!
