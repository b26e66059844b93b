//! Audio side of the assistant: who is speaking, the capture format, turn
//! detection over normalised samples, pause control and capture sources.
pub mod hotkey;
pub mod router;
pub mod vad;
pub mod wasapi;
pub mod wav_writer;

use vstd::prelude::*;
use vstd::string::*;

use crate::text::decimal;
use crate::text::append_decimal;

verus! {

/// Who is speaking on a captured audio stream: the candidate's microphone
/// or the interviewer, heard through the system's audio output.
#[derive(Debug, Clone, Copy, PartialEq, Eq, Structural)]
pub enum Speaker {
    User,
    System,
}

impl Speaker {
    /// Short lowercase name, used in file names.
    pub fn label(&self) -> (r: &'static str)
        ensures
            *self == Speaker::User ==> r@ == "user"@,
            *self == Speaker::System ==> r@ == "system"@,
    {
        match self {
            Speaker::User => "user",
            Speaker::System => "system",
        }
    }

    /// Fixed-width name used in log lines.
    pub fn display_name(&self) -> (r: &'static str)
        ensures
            *self == Speaker::User ==> r@ == "USER  "@,
            *self == Speaker::System ==> r@ == "SYSTEM"@,
    {
        match self {
            Speaker::User => "USER  ",
            Speaker::System => "SYSTEM",
        }
    }
}

/// Sample rate and channel count of a captured stream.
#[derive(Debug, Clone, Copy)]
pub struct AudioFormat {
    pub sample_rate: u32,
    pub channels: u16,
}

/// How an audio format is described: `"{rate}Hz {channels}ch"`.
pub open spec fn format_description(sample_rate: nat, channels: nat) -> Seq<char> {
    decimal(sample_rate) + "Hz "@ + decimal(channels) + "ch"@
}

impl AudioFormat {
    /// The format as `"{rate}Hz {channels}ch"`.
    pub fn describe(&self) -> (r: String)
        ensures
            r@ == format_description(self.sample_rate as nat, self.channels as nat),
    {
        let mut s = String::new();
        append_decimal(&mut s, self.sample_rate as u128);
        s.append("Hz ");
        append_decimal(&mut s, self.channels as u128);
        s.append("ch");
        assert(s@ =~= format_description(self.sample_rate as nat, self.channels as nat));
        s
    }
}

} // verus!
