use vstd::prelude::*;

verus! {

/// Sample rate of all audio after normalisation.
pub const TARGET_SAMPLE_RATE: u32 = 16_000;

/// Input frames handed to the resampler per processing step.
pub const INPUT_CHUNK_FRAMES: usize = 1_024;

/// Sub-chunks the resampler splits each step into.
pub const SUB_CHUNKS: usize = 2;

} // verus!
