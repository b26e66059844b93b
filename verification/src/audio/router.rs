//! Ordering of detected speech turns into one conversation.
use vstd::prelude::*;

use super::vad::{detector_calls, run, verdicts, turn_views, DetectorCall, Phase, SpeechTurn, VadChannel, VoiceDetector};
use crate::config::vad::CHUNK_SAMPLES;
use crate::stt::{SttCall, SttSender};
use super::Speaker;

verus! {

/// Hands one speaker's normalised audio to transcription and to turn
/// detection, and tells transcription whenever a turn ends.
pub struct SpeechForwarder<S: SttSender, D: VoiceDetector> {
    vad: VadChannel<D>,
    stt: S,
}

impl<S: SttSender, D: VoiceDetector> SpeechForwarder<S, D> {
    /// The forwarder is in a consistent state.
    pub closed spec fn wf(&self) -> bool {
        &&& self.vad.wf()
        &&& self.vad.phase().wf()
        &&& self.vad.pending().len() < CHUNK_SAMPLES
    }

    /// The speaker whose audio this forwards.
    pub closed spec fn speaker_of(&self) -> Speaker {
        self.vad.speaker_of()
    }

    /// Samples waiting for a full detection chunk.
    pub closed spec fn pending(&self) -> Seq<i16> {
        self.vad.pending()
    }

    /// Where turn detection stands.
    pub closed spec fn phase(&self) -> Phase {
        self.vad.phase()
    }

    /// What the voice detector has been asked to do so far, oldest first.
    pub closed spec fn detector_log(&self) -> Seq<DetectorCall> {
        self.vad.detector_log()
    }

    /// What has been handed to transcription so far, oldest first.
    pub closed spec fn stt_log(&self) -> Seq<SttCall> {
        self.stt.sent()
    }

    /// Forwards `speaker`'s audio to `stt`, with `vad` deciding where turns end.
    pub fn new(speaker: Speaker, vad: D, stt: S) -> (r: Self)
        ensures
            r.wf(),
            r.phase().wf(),
            r.speaker_of() == speaker,
            r.pending() == Seq::<i16>::empty(),
            r.phase() == Phase::Silence,
            r.detector_log() == vad.calls(),
            r.stt_log() == stt.sent(),
    {
        SpeechForwarder { vad: VadChannel::new(speaker, vad), stt }
    }

    /// Processes one normalised block. Empty blocks are ignored. Otherwise the
    /// block is streamed to transcription, run through turn detection, and
    /// transcription is told of each completed turn; the turns are returned.
    pub fn forward(&mut self, samples: &[i16]) -> (completed: Vec<SpeechTurn>)
        requires
            old(self).wf(),
        ensures
            final(self).wf(),
            final(self).phase().wf(),
            final(self).pending().len() < CHUNK_SAMPLES,
            final(self).speaker_of() == old(self).speaker_of(),
            samples@.len() == 0 ==> {
                &&& completed@.len() == 0
                &&& final(self).pending() == old(self).pending()
                &&& final(self).phase() == old(self).phase()
                &&& final(self).detector_log() == old(self).detector_log()
                &&& final(self).stt_log() == old(self).stt_log()
            },
            samples@.len() > 0 ==> final(self).stt_log() == old(self).stt_log().push(SttCall::Audio(samples@))
                + Seq::new(completed@.len(), |i: int| SttCall::EndTurn),
            samples@.len() > 0 ==> exists|answers: Seq<bool>, times: Seq<u128>|
                {
                    &&& answers.len() == (old(self).pending() + samples@).len() / (
                    CHUNK_SAMPLES as nat)
                    &&& answers.len() == times.len()
                    &&& run(
                        old(self).speaker_of(),
                        old(self).phase(),
                        old(self).pending() + samples@,
                        answers,
                        times,
                    ) == (final(self).phase(), final(self).pending(), turn_views(completed@))
                    &&& final(self).detector_log() == old(self).detector_log() + detector_calls(
                        old(self).speaker_of(),
                        old(self).phase(),
                        old(self).pending() + samples@,
                        answers,
                        times,
                    )
                    &&& answers == verdicts(final(self).detector_log().skip(old(self).detector_log().len() as int))
                },
    {
        if samples.len() == 0 {
            return Vec::new();
        }
        self.stt.send_audio(samples);
        let ghost sent0 = self.stt.sent();
        let ghost before = self.vad;
        let turns = self.vad.push(samples);
        let ghost after = self.vad;
        proof {
            let (answers, times) = choose|answers: Seq<bool>, times: Seq<u128>|
                {
                    &&& answers.len() == (before.pending() + samples@).len() / (CHUNK_SAMPLES as nat)
                    &&& answers.len() == times.len()
                    &&& run(before.speaker_of(), before.phase(), before.pending() + samples@, answers, times)
                        == (after.phase(), after.pending(), turn_views(turns@))
                    &&& after.detector_log() == before.detector_log() + detector_calls(
                        before.speaker_of(),
                        before.phase(),
                        before.pending() + samples@,
                        answers,
                        times,
                    )
                    &&& answers == verdicts(after.detector_log().skip(before.detector_log().len() as int))
                };
            assert(run(old(self).speaker_of(), old(self).phase(), old(self).pending() + samples@, answers, times)
                == (after.phase(), after.pending(), turn_views(turns@)));
        }
        proof {
            assert(sent0 + Seq::new(0, |i: int| SttCall::EndTurn) =~= sent0);
        }
        for i in 0..turns.len()
            invariant
                self.vad == after,
                self.stt.sent() == sent0 + Seq::new(i as nat, |j: int| SttCall::EndTurn),
        {
            self.stt.end_turn();
            assert(sent0 + Seq::new((i + 1) as nat, |j: int| SttCall::EndTurn) =~= (sent0 + Seq::new(
                i as nat,
                |j: int| SttCall::EndTurn,
            )).push(SttCall::EndTurn));
        }
        turns
    }
}

/// Turns ordered by start time, earliest first.
pub open spec fn sorted_by_start(turns: Seq<SpeechTurn>) -> bool {
    forall|i: int, j: int|
        0 <= i < j < turns.len() ==> #[trigger] turns[i].start_ms <= #[trigger] turns[j].start_ms
}

/// The position at which a turn starting at `start_ms` goes: after every
/// leading turn that starts no later than it.
pub open spec fn insertion_point(turns: Seq<SpeechTurn>, start_ms: u128) -> int
    decreases turns.len(),
{
    if turns.len() == 0 || turns[0].start_ms > start_ms {
        0
    } else {
        1 + insertion_point(turns.drop_first(), start_ms)
    }
}

proof fn lemma_insertion_point(turns: Seq<SpeechTurn>, start_ms: u128)
    ensures
        0 <= insertion_point(turns, start_ms) <= turns.len(),
        forall|k: int|
            0 <= k < insertion_point(turns, start_ms) ==> #[trigger] turns[k].start_ms <= start_ms,
        insertion_point(turns, start_ms) < turns.len() ==> turns[insertion_point(
            turns,
            start_ms,
        )].start_ms > start_ms,
    decreases turns.len(),
{
    if turns.len() > 0 && turns[0].start_ms <= start_ms {
        let t = turns.drop_first();
        lemma_insertion_point(t, start_ms);
        assert forall|k: int| 0 <= k < insertion_point(turns, start_ms) implies #[trigger] turns[k].start_ms
            <= start_ms by {
            if k > 0 {
                assert(turns[k] == t[k - 1]);
            }
        }
    }
}

/// Inserts `turn` into `conversation` after every leading turn that starts no
/// later than it, so that a conversation ordered by start time stays ordered.
pub fn insert_chronologically(conversation: &mut Vec<SpeechTurn>, turn: SpeechTurn)
    ensures
        final(conversation)@ == old(conversation)@.insert(
            insertion_point(old(conversation)@, turn.start_ms),
            turn,
        ),
{
    let ghost s = conversation@;
    let mut pos: usize = 0;
    proof {
        lemma_insertion_point(s, turn.start_ms);
        assert(s.skip(0) =~= s);
    }
    while pos < conversation.len() && conversation[pos].start_ms <= turn.start_ms
        invariant
            conversation@ == s,
            pos <= s.len(),
            insertion_point(s, turn.start_ms) == pos + insertion_point(s.skip(pos as int), turn.start_ms),
        decreases s.len() - pos,
    {
        assert(s.skip(pos as int).drop_first() =~= s.skip(pos + 1));
        pos = pos + 1;
    }
    assert(insertion_point(s.skip(pos as int), turn.start_ms) == 0);
    conversation.insert(pos, turn);
}

/// Inserting into a conversation ordered by start time keeps it ordered.
pub proof fn lemma_insert_keeps_order(conversation: Seq<SpeechTurn>, turn: SpeechTurn)
    requires
        sorted_by_start(conversation),
    ensures
        sorted_by_start(conversation.insert(insertion_point(conversation, turn.start_ms), turn)),
{
    let p = insertion_point(conversation, turn.start_ms);
    lemma_insertion_point(conversation, turn.start_ms);
    let r = conversation.insert(p, turn);
    assert forall|i: int, j: int| 0 <= i < j < r.len() implies #[trigger] r[i].start_ms
        <= #[trigger] r[j].start_ms by {
        if i < p && j < p {
            assert(r[i] == conversation[i] && r[j] == conversation[j]);
        } else if i < p && j == p {
            assert(r[i] == conversation[i]);
        } else if i < p {
            assert(r[i] == conversation[i] && r[j] == conversation[j - 1]);
        } else if i == p {
            assert(r[j] == conversation[j - 1]);
            assert(conversation[p].start_ms > turn.start_ms);
            assert(conversation[p].start_ms <= conversation[j - 1].start_ms);
        } else {
            assert(r[i] == conversation[i - 1] && r[j] == conversation[j - 1]);
        }
    }
}

} // verus!
