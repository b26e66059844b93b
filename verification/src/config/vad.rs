use vstd::prelude::*;

verus! {

/// Samples per voice-activity decision (32 ms at 16 kHz).
pub const CHUNK_SAMPLES: usize = 512;

/// Consecutive non-speech chunks after which a speech run ends.
pub const HANGOVER_CHUNKS: usize = 20;

/// Speech chunks a run needs to count as a turn rather than a noise burst.
pub const MIN_SPEECH_CHUNKS: usize = 3;

} // verus!
