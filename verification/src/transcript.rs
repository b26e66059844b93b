//! The conversation transcript: labelled lines, how they are rendered for the
//! transcript file and the live view, and the shared live buffer.
use vstd::prelude::*;
use vstd::string::*;

use crate::text::{trim, trimmed};

verus! {

/// Who a transcript line belongs to.
#[derive(Debug, Clone, Copy, PartialEq, Eq, Structural)]
pub enum LineKind {
    User,
    Interviewer,
    Ai,
}

/// The label that introduces a line of each kind.
pub open spec fn kind_label(kind: LineKind) -> Seq<char> {
    match kind {
        LineKind::User => "[User]"@,
        LineKind::Interviewer => "[Interviewer]"@,
        LineKind::Ai => "[AI]"@,
    }
}

impl LineKind {
    /// `"[User]"`, `"[Interviewer]"` or `"[AI]"`.
    pub fn label(self) -> (r: &'static str)
        ensures
            r@ == kind_label(self),
    {
        match self {
            LineKind::User => "[User]",
            LineKind::Interviewer => "[Interviewer]",
            LineKind::Ai => "[AI]",
        }
    }
}

/// One line of the conversation.
#[derive(Debug, Clone)]
pub struct TranscriptLine {
    pub kind: LineKind,
    pub text: String,
}

/// How a line reads: `"{label}: {text}"`.
pub open spec fn rendered(kind: LineKind, text: Seq<char>) -> Seq<char> {
    kind_label(kind) + ": "@ + text
}

impl TranscriptLine {
    /// The line for `text` spoken by `kind`, with surrounding whitespace removed.
    pub fn new(kind: LineKind, text: &str) -> (r: TranscriptLine)
        ensures
            r.kind == kind,
            r.text@ == trim(text@),
    {
        TranscriptLine { kind, text: trimmed(text) }
    }

    /// The line as shown: `"{label}: {text}"`.
    pub fn render(&self) -> (r: String)
        ensures
            r@ == rendered(self.kind, self.text@),
    {
        let mut s = String::new();
        s.append(self.kind.label());
        s.append(": ");
        s.append(self.text.as_str());
        assert(s@ =~= rendered(self.kind, self.text@));
        s
    }

    /// The line as written to the transcript file: `"{label}: {text}\n"`.
    pub fn file_line(&self) -> (r: String)
        ensures
            r@ == rendered(self.kind, self.text@) + "\n"@,
    {
        let mut s = self.render();
        s.append("\n");
        s
    }
}

#[verifier::external_type_specification]
#[verifier::external_body]
#[verifier::reject_recursive_types(T)]
pub struct ExMutex<T: ?Sized>(std::sync::Mutex<T>);

/// `Mutex::new`: a mutex holding `t`. Nothing is claimed of the result, which
/// Verus cannot look into.
pub assume_specification<T>[ std::sync::Mutex::<T>::new ](t: T) -> std::sync::Mutex<T>;

/// The live conversation, shared between the pipeline that writes it and the
/// window that shows it.
pub type LiveTranscript = std::sync::Arc<std::sync::Mutex<Vec<TranscriptLine>>>;

/// A new, empty live transcript.
pub fn new_live_transcript() -> LiveTranscript {
    std::sync::Arc::new(std::sync::Mutex::new(Vec::new()))
}

} // verus!
