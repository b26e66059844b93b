use vstd::prelude::*;

verus! {

/// How long a locally detected turn end waits for the service's own
/// end-of-speech signal before the accumulated text is flushed anyway.
pub const FLUSH_GRACE_MS: u64 = 500;

/// How long to wait before trying again after a connection attempt failed.
pub const RECONNECT_DELAY_MS: u64 = 2000;

} // verus!
