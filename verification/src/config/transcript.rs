use vstd::prelude::*;

verus! {

/// File the conversation is written to.
pub const PATH: &'static str = "transcript.txt";

} // verus!
