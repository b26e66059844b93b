use vstd::prelude::*;

verus! {

/// Dimensions of every embedding vector.
pub const EMBEDDING_DIMS: usize = 512;

/// Context entries retrieved per question.
pub const TOP_K: usize = 3;

/// (question, answer) pairs replayed to the language model per call.
pub const MAX_HISTORY_TURNS: usize = 5;

} // verus!
