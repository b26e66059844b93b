use vstd::prelude::*;

verus! {

/// Capacity, in samples, of the buffer between a capture device and its forwarder.
pub const RING_BUFFER_CAPACITY: usize = 384_000;

/// Samples forwarded per captured chunk.
pub const CONSUMER_CHUNK_SIZE: usize = 4_096;

/// How long a capture thread waits for the device before trying again.
pub const EVENT_TIMEOUT_MS: u32 = 1_000;

} // verus!
