//! File names of recorded audio.
use vstd::prelude::*;
use vstd::string::*;

use super::Speaker;
use crate::text::{append_decimal, decimal};

verus! {

/// The lowercase name of a speaker, as used in file names.
pub open spec fn speaker_name(speaker: Speaker) -> Seq<char> {
    match speaker {
        Speaker::User => "user"@,
        Speaker::System => "system"@,
    }
}

/// The file a turn is saved to: `"turn_{speaker}_{start_ms}.wav"`.
pub open spec fn spec_turn_wav_path(speaker: Speaker, start_ms: nat) -> Seq<char> {
    "turn_"@ + speaker_name(speaker) + "_"@ + decimal(start_ms) + ".wav"@
}

/// The file a turn of `speaker` starting at `start_ms` is saved to.
pub fn turn_wav_path(speaker: Speaker, start_ms: u128) -> (r: String)
    ensures
        r@ == spec_turn_wav_path(speaker, start_ms as nat),
{
    let mut s = String::from_str("turn_");
    s.append(speaker.label());
    s.append("_");
    append_decimal(&mut s, start_ms);
    s.append(".wav");
    assert(s@ =~= spec_turn_wav_path(speaker, start_ms as nat));
    s
}

/// The file the raw capture of each speaker is recorded to.
pub fn raw_capture_path(speaker: Speaker) -> (r: &'static str)
    ensures
        speaker == Speaker::User ==> r@ == "raw_mic.wav"@,
        speaker == Speaker::System ==> r@ == "raw_sys.wav"@,
{
    match speaker {
        Speaker::User => "raw_mic.wav",
        Speaker::System => "raw_sys.wav",
    }
}

} // verus!
