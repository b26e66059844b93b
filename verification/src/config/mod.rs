//! Tunable constants of the assistant.
pub mod ai;
pub mod capture;
pub mod deepgram;
pub mod resampler;
pub mod transcript;
pub mod vad;
