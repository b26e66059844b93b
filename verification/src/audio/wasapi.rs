//! The two capture sources and whose voice each carries.
use vstd::prelude::*;

use super::Speaker;

verus! {

/// A capture source: the microphone, or the loopback of what the system plays.
#[derive(Debug, Clone, Copy, PartialEq, Eq, Structural)]
pub enum AudioSource {
    Microphone,
    SystemLoopback,
}

impl AudioSource {
    /// The microphone carries the user; the system loopback carries the interviewer.
    pub fn speaker(&self) -> (r: Speaker)
        ensures
            *self == AudioSource::Microphone ==> r == Speaker::User,
            *self == AudioSource::SystemLoopback ==> r == Speaker::System,
    {
        match self {
            AudioSource::Microphone => Speaker::User,
            AudioSource::SystemLoopback => Speaker::System,
        }
    }
}

} // verus!
