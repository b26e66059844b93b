//! Which finished turns the assistant answers.
use vstd::prelude::*;

use crate::audio::Speaker;
use crate::stt::TurnComplete;

verus! {

/// Only the interviewer's turns (the system audio) are questions to answer.
pub fn is_interviewer_question(turn: &TurnComplete) -> (r: bool)
    ensures
        r == (turn.speaker == Speaker::System),
{
    turn.speaker == Speaker::System
}

} // verus!
