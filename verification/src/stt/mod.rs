//! Speech-to-text: completed turns of text, the interface audio is streamed
//! through, and how a turn is labelled in the transcript.
pub mod deepgram;

use vstd::prelude::*;

use crate::audio::Speaker;
use crate::text::{blank, is_blank};
use crate::transcript::{kind_label, LineKind};

verus! {

/// A finished turn of transcribed speech.
pub struct TurnComplete {
    pub speaker: Speaker,
    pub text: String,
}

/// Anything audio can be streamed to for transcription.
pub trait SttSender: Send + Sync {
    /// What has been sent so far, oldest first: the record
    /// the contracts below speak of. It exists for proofs only. A verified
    /// implementation defines it and proves the contracts over it. The body
    /// given here, an empty record, is a placeholder so that implementations
    /// written outside verified code compile; such an implementation does not
    /// meet the contracts below, and the library's results about callers
    /// hold of it only insofar as its calls happen as those contracts
    /// describe.
    closed spec fn sent(&self) -> Seq<SttCall> {
        Seq::empty()
    }

    /// Streams normalised samples.
    fn send_audio(&mut self, samples: &[i16])
        ensures
            final(self).sent() == old(self).sent().push(SttCall::Audio(samples@)),
    ;

    /// Signals that the local turn detector saw the speaker stop.
    fn end_turn(&mut self)
        ensures
            final(self).sent() == old(self).sent().push(SttCall::EndTurn),
    ;
}

/// One message handed to transcription.
pub enum SttCall {
    /// A block of normalised samples.
    Audio(Seq<i16>),
    /// The speaker stopped talking.
    EndTurn,
}

/// The transcript line kind of each speaker: the microphone is the user, the
/// system audio is the interviewer.
pub open spec fn kind_of(speaker: Speaker) -> LineKind {
    match speaker {
        Speaker::User => LineKind::User,
        Speaker::System => LineKind::Interviewer,
    }
}

/// The transcript line kind for `speaker`.
pub fn line_kind_for(speaker: Speaker) -> (r: LineKind)
    ensures
        r == kind_of(speaker),
{
    match speaker {
        Speaker::User => LineKind::User,
        Speaker::System => LineKind::Interviewer,
    }
}

/// The transcript label of `speaker`: `"[User]"` or `"[Interviewer]"`.
pub fn speaker_label(speaker: &Speaker) -> (r: &'static str)
    ensures
        r@ == kind_label(kind_of(*speaker)),
{
    line_kind_for(*speaker).label()
}

/// Whether a turn carries text worth logging and forwarding: it is dropped
/// when its text is empty once trimmed.
pub fn has_content(turn: &TurnComplete) -> (r: bool)
    ensures
        r == !is_blank(turn.text@),
{
    !blank(turn.text.as_str())
}

} // verus!
