//! Verified core of a real-time interview assistant: turn detection over
//! captured audio, speech-to-text turn assembly, transcript formatting,
//! retrieval-augmented prompt construction and session history.
use vstd::prelude::*;

pub mod ai;
pub mod audio;
pub mod config;
pub mod overlay;
pub mod stt;
pub mod text;
pub mod transcript;

verus! {

} // verus!
