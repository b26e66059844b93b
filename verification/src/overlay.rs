//! The small decisions of the overlay window: button labels, how transcript
//! lines are coloured, what the preview shows before anything is said, and
//! when the candidate's context is handed over.
use vstd::prelude::*;

use crate::transcript::LineKind;

verus! {

/// Shown in the preview while the conversation has no line yet.
pub const PREVIEW_PLACEHOLDER: &'static str = "Waiting for the conversation...";

/// The action the visibility button offers: `"Unhide"` while the window is
/// hidden from screen capture, `"Hide"` otherwise.
pub fn visibility_label(is_hidden: bool) -> (r: &'static str)
    ensures
        is_hidden ==> r@ == "Unhide"@,
        !is_hidden ==> r@ == "Hide"@,
{
    if is_hidden {
        "Unhide"
    } else {
        "Hide"
    }
}

/// The colour, as red, green and blue, in which a line of `kind` is drawn:
/// assistant lines stand out in blue, other lines use the default colour.
pub fn line_color(kind: LineKind) -> (r: Option<(u8, u8, u8)>)
    ensures
        kind == LineKind::Ai ==> r == Some((122u8, 162u8, 247u8)),
        kind != LineKind::Ai ==> r is None,
{
    match kind {
        LineKind::Ai => Some((122, 162, 247)),
        _ => None,
    }
}

/// What the preview shows in place of lines when there are `line_count` of
/// them: the placeholder when there is none, nothing otherwise.
pub fn preview_placeholder(line_count: usize) -> (r: Option<&'static str>)
    ensures
        line_count == 0 ==> r == Some(PREVIEW_PLACEHOLDER),
        line_count > 0 ==> r is None,
{
    if line_count == 0 {
        Some(PREVIEW_PLACEHOLDER)
    } else {
        None
    }
}

/// Whether the session has been started from the setup screen. The
/// candidate's context is handed over once, on the first start.
pub struct SessionGate {
    started: bool,
}

impl SessionGate {
    /// Whether the session has started.
    pub closed spec fn is_open(&self) -> bool {
        self.started
    }

    /// A session not yet started.
    pub fn new() -> (r: Self)
        ensures
            !r.is_open(),
    {
        SessionGate { started: false }
    }

    /// Whether the session has started.
    pub fn started(&self) -> (r: bool)
        ensures
            r == self.is_open(),
    {
        self.started
    }

    /// A start request: the session is started, and the context is to be
    /// handed over exactly when this is the first request.
    pub fn start(&mut self) -> (hand_over: bool)
        ensures
            hand_over == !old(self).is_open(),
            final(self).is_open(),
    {
        let first = !self.started;
        self.started = true;
        first
    }
}

} // verus!
