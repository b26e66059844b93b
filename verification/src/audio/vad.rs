//! Turn detection: a state machine that cuts a stream of normalised samples
//! into speech turns, one fixed-size chunk at a time, from the answers of an
//! injected voice detector.
use vstd::prelude::*;

use super::Speaker;
use crate::config::vad::{CHUNK_SAMPLES, HANGOVER_CHUNKS, MIN_SPEECH_CHUNKS};

verus! {

// ── Detector ──────────────────────────────────────────────────────────────────

/// Any voice detector: decides whether one chunk of samples holds speech.
/// Acoustic inference stays behind this trait; the turn logic does not
/// depend on how the decision is made.
pub trait VoiceDetector: Send {
    /// What the detector has been asked to do so far, oldest first: the record
    /// the contracts below speak of. It exists for proofs only. A verified
    /// implementation defines it and proves the contracts over it. The body
    /// given here, an empty record, is a placeholder so that implementations
    /// written outside verified code compile; such an implementation does not
    /// meet the contracts below, and the library's results about callers
    /// hold of it only insofar as its calls happen as those contracts
    /// describe.
    closed spec fn calls(&self) -> Seq<DetectorCall> {
        Seq::empty()
    }

    /// Whether the chunk (`CHUNK_SAMPLES` samples) holds speech.
    fn is_speech(&mut self, chunk: &[i16]) -> (r: bool)
        ensures
            final(self).calls() == old(self).calls().push(DetectorCall::Judge(chunk@, r)),
    ;

    /// Clears the detector's internal state between turns.
    fn reset(&mut self)
        ensures
            final(self).calls() == old(self).calls().push(DetectorCall::Reset),
    ;
}

/// One request made of a voice detector.
pub enum DetectorCall {
    /// Judge whether this chunk holds speech; the detector's verdict.
    Judge(Seq<i16>, bool),
    /// Clear the state kept between chunks.
    Reset,
}

// ── Turns ─────────────────────────────────────────────────────────────────────

/// One completed speech turn.
#[derive(Debug, Clone)]
pub struct SpeechTurn {
    pub speaker: Speaker,
    pub audio: Vec<i16>,
    pub start_ms: u128,
    pub end_ms: u128,
}

/// What a speech turn holds.
pub struct TurnView {
    pub speaker: Speaker,
    pub audio: Seq<i16>,
    pub start_ms: u128,
    pub end_ms: u128,
}

impl View for SpeechTurn {
    type V = TurnView;

    open spec fn view(&self) -> TurnView {
        TurnView {
            speaker: self.speaker,
            audio: self.audio@,
            start_ms: self.start_ms,
            end_ms: self.end_ms,
        }
    }
}

/// The views of a sequence of turns.
pub open spec fn turn_views(v: Seq<SpeechTurn>) -> Seq<TurnView> {
    v.map_values(|t: SpeechTurn| t@)
}

/// The view of an optional turn.
pub open spec fn opt_turn_view(t: Option<SpeechTurn>) -> Option<TurnView> {
    match t {
        Some(t) => Some(t@),
        None => None,
    }
}

// ── State ─────────────────────────────────────────────────────────────────────

/// Where the detector stands between chunks.
pub enum TurnState {
    Silence,
    Speech { chunk_count: usize, audio: Vec<i16>, start_ms: u128, hangover_left: usize },
}

/// What a turn state holds.
pub enum Phase {
    Silence,
    Speech { chunk_count: nat, audio: Seq<i16>, start_ms: u128, hangover_left: nat },
}

impl View for TurnState {
    type V = Phase;

    open spec fn view(&self) -> Phase {
        match self {
            TurnState::Silence => Phase::Silence,
            TurnState::Speech { chunk_count, audio, start_ms, hangover_left } => Phase::Speech {
                chunk_count: *chunk_count as nat,
                audio: audio@,
                start_ms: *start_ms,
                hangover_left: *hangover_left as nat,
            },
        }
    }
}

impl Phase {
    /// A speech run has seen at least one speech chunk, holds all the audio of
    /// its chunks, and has between one and `HANGOVER_CHUNKS` silent chunks left.
    pub open spec fn wf(self) -> bool {
        match self {
            Phase::Silence => true,
            Phase::Speech { chunk_count, audio, hangover_left, .. } => {
                &&& 1 <= chunk_count
                &&& audio.len() >= chunk_count * CHUNK_SAMPLES
                &&& 1 <= hangover_left <= HANGOVER_CHUNKS
            },
        }
    }
}

/// The effect of one chunk: the next phase, and the turn it completes, if any.
///
/// - silence, speech: a run starts (one chunk, full hangover, started now);
/// - silence, no speech: silence;
/// - speech, speech: the chunk joins the run, the hangover is refilled;
/// - speech, no speech, more than one hangover chunk left: the chunk joins
///   the run and the hangover shrinks by one;
/// - speech, no speech, last hangover chunk: the run ends with this chunk; it
///   becomes a turn (ending now) if it had at least `MIN_SPEECH_CHUNKS`
///   speech chunks, and is dropped as a noise burst otherwise.
pub open spec fn step(speaker: Speaker, phase: Phase, is_speech: bool, chunk: Seq<i16>, now: u128) -> (
    Phase,
    Option<TurnView>,
) {
    match phase {
        Phase::Silence => if is_speech {
            (
                Phase::Speech {
                    chunk_count: 1,
                    audio: chunk,
                    start_ms: now,
                    hangover_left: HANGOVER_CHUNKS as nat,
                },
                None,
            )
        } else {
            (Phase::Silence, None)
        },
        Phase::Speech { chunk_count, audio, start_ms, hangover_left } => if is_speech {
            (
                Phase::Speech {
                    chunk_count: chunk_count + 1,
                    audio: audio + chunk,
                    start_ms,
                    hangover_left: HANGOVER_CHUNKS as nat,
                },
                None,
            )
        } else if hangover_left > 1 {
            (
                Phase::Speech {
                    chunk_count,
                    audio: audio + chunk,
                    start_ms,
                    hangover_left: (hangover_left - 1) as nat,
                },
                None,
            )
        } else {
            (
                Phase::Silence,
                if chunk_count >= MIN_SPEECH_CHUNKS {
                    Some(TurnView { speaker, audio: audio + chunk, start_ms, end_ms: now })
                } else {
                    None
                },
            )
        },
    }
}

/// A run keeps the time of the chunk that opened it: whatever the verdict and
/// whatever is left of the hangover, a chunk leaves an open run's start time
/// unchanged, and the turn a run becomes starts at that time and ends at the
/// time of the chunk that closes it. Only a speech chunk in silence starts a
/// run, at its own time.
pub proof fn lemma_run_keeps_start(speaker: Speaker, phase: Phase, is_speech: bool, chunk: Seq<i16>, now: u128)
    ensures
        ({
            let (next, turn) = step(speaker, phase, is_speech, chunk, now);
            &&& phase matches Phase::Speech { start_ms, .. } ==> {
                &&& next matches Phase::Speech { start_ms: s, .. } ==> s == start_ms
                &&& turn matches Some(t) ==> t.start_ms == start_ms && t.end_ms == now
            }
            &&& phase is Silence ==> turn is None
            &&& phase is Silence ==> (next matches Phase::Speech { start_ms: s, .. } ==> is_speech && s == now)
            &&& phase is Silence && is_speech ==> next is Speech
            &&& phase is Speech && is_speech ==> next is Speech && turn is None
        }),
{
}

/// Whether this chunk ends a speech run (after which the detector is reset).
pub open spec fn ends_run(phase: Phase, is_speech: bool) -> bool {
    match phase {
        Phase::Silence => false,
        Phase::Speech { hangover_left, .. } => !is_speech && hangover_left <= 1,
    }
}

/// Whether the effect of this chunk depends on the current time.
pub open spec fn reads_clock(phase: Phase, is_speech: bool) -> bool {
    match phase {
        Phase::Silence => is_speech,
        Phase::Speech { hangover_left, .. } => !is_speech && hangover_left <= 1,
    }
}

/// Feeding chunks of `buf`, one per detector answer, in order: the phase
/// reached, the samples left over, and the turns completed on the way.
/// `answers[i]` and `times[i]` are the detector's answer and the clock for the
/// `i`-th chunk.
pub open spec fn run(speaker: Speaker, phase: Phase, buf: Seq<i16>, answers: Seq<bool>, times: Seq<u128>) -> (
    Phase,
    Seq<i16>,
    Seq<TurnView>,
)
    decreases answers.len(),
{
    if answers.len() == 0 {
        (phase, buf, Seq::empty())
    } else {
        let prev = run(speaker, phase, buf, answers.drop_last(), times.drop_last());
        let chunk = prev.1.take(CHUNK_SAMPLES as int);
        let (next, turn) = step(speaker, prev.0, answers.last(), chunk, times.last());
        (
            next,
            prev.1.skip(CHUNK_SAMPLES as int),
            match turn {
                Some(t) => prev.2.push(t),
                None => prev.2,
            },
        )
    }
}

/// The requests made of the detector while feeding chunks of `buf`, one per
/// answer, in order: each chunk is judged, with that answer as the verdict,
/// and the detector is reset right after a chunk that ends a speech run.
pub open spec fn detector_calls(speaker: Speaker, phase: Phase, buf: Seq<i16>, answers: Seq<bool>, times: Seq<u128>) -> Seq<
    DetectorCall,
>
    decreases answers.len(),
{
    if answers.len() == 0 {
        Seq::empty()
    } else {
        let prev = run(speaker, phase, buf, answers.drop_last(), times.drop_last());
        let judged = detector_calls(speaker, phase, buf, answers.drop_last(), times.drop_last()).push(
            DetectorCall::Judge(prev.1.take(CHUNK_SAMPLES as int), answers.last()),
        );
        if ends_run(prev.0, answers.last()) {
            judged.push(DetectorCall::Reset)
        } else {
            judged
        }
    }
}

/// A chunk keeps the state well formed, and a turn it completes belongs to
/// the channel's speaker and spans at least `MIN_SPEECH_CHUNKS` chunks.
pub proof fn lemma_step_keeps_shape(speaker: Speaker, phase: Phase, is_speech: bool, chunk: Seq<i16>, now: u128)
    requires
        phase.wf(),
        chunk.len() == CHUNK_SAMPLES,
    ensures
        step(speaker, phase, is_speech, chunk, now).0.wf(),
        step(speaker, phase, is_speech, chunk, now).1 matches Some(t) ==> t.speaker == speaker
            && t.audio.len() >= MIN_SPEECH_CHUNKS * CHUNK_SAMPLES,
{
}

/// Over any sequence of detector answers: the state stays well formed, the
/// consumed chunks are removed from the front of the buffer, and noise bursts
/// (runs with fewer than `MIN_SPEECH_CHUNKS` speech chunks) never become turns.
pub proof fn lemma_run_keeps_shape(speaker: Speaker, phase: Phase, buf: Seq<i16>, answers: Seq<bool>, times: Seq<u128>)
    requires
        phase.wf(),
        answers.len() == times.len(),
        buf.len() >= answers.len() * CHUNK_SAMPLES,
    ensures
        run(speaker, phase, buf, answers, times).0.wf(),
        run(speaker, phase, buf, answers, times).1 == buf.skip(answers.len() * CHUNK_SAMPLES),
        forall|i: int|
            0 <= i < run(speaker, phase, buf, answers, times).2.len() ==> {
                let t = #[trigger] run(speaker, phase, buf, answers, times).2[i];
                t.speaker == speaker && t.audio.len() >= MIN_SPEECH_CHUNKS * CHUNK_SAMPLES
            },
    decreases answers.len(),
{
    if answers.len() == 0 {
        assert(buf.skip(0) =~= buf);
    } else {
        let k = answers.len();
        lemma_run_keeps_shape(speaker, phase, buf, answers.drop_last(), times.drop_last());
        let prev = run(speaker, phase, buf, answers.drop_last(), times.drop_last());
        assert(prev.1 == buf.skip((k - 1) * CHUNK_SAMPLES));
        let chunk = prev.1.take(CHUNK_SAMPLES as int);
        assert(chunk.len() == CHUNK_SAMPLES);
        lemma_step_keeps_shape(speaker, prev.0, answers.last(), chunk, times.last());
        assert(prev.1.skip(CHUNK_SAMPLES as int) =~= buf.skip(k * CHUNK_SAMPLES));
        let cur = run(speaker, phase, buf, answers, times);
        assert forall|i: int| 0 <= i < cur.2.len() implies {
            let t = #[trigger] cur.2[i];
            t.speaker == speaker && t.audio.len() >= MIN_SPEECH_CHUNKS * CHUNK_SAMPLES
        } by {
            if i < prev.2.len() {
                assert(cur.2[i] == prev.2[i]);
            }
        }
    }
}

/// The chunks a sequence of detector requests asks about, in order.
pub open spec fn judged_chunks(calls: Seq<DetectorCall>) -> Seq<Seq<i16>>
    decreases calls.len(),
{
    if calls.len() == 0 {
        Seq::empty()
    } else {
        let rest = judged_chunks(calls.drop_last());
        match calls.last() {
            DetectorCall::Judge(chunk, _) => rest.push(chunk),
            DetectorCall::Reset => rest,
        }
    }
}

/// The verdicts recorded in a sequence of detector requests, in order.
pub open spec fn verdicts(calls: Seq<DetectorCall>) -> Seq<bool>
    decreases calls.len(),
{
    if calls.len() == 0 {
        Seq::empty()
    } else {
        let rest = verdicts(calls.drop_last());
        match calls.last() {
            DetectorCall::Judge(_, speech) => rest.push(speech),
            DetectorCall::Reset => rest,
        }
    }
}

/// The verdicts recorded while feeding chunks are the answers the state
/// machine was driven by, one per chunk, in order.
pub proof fn lemma_verdicts_are_answers(
    speaker: Speaker,
    phase: Phase,
    buf: Seq<i16>,
    answers: Seq<bool>,
    times: Seq<u128>,
)
    ensures
        verdicts(detector_calls(speaker, phase, buf, answers, times)) == answers,
    decreases answers.len(),
{
    let k = answers.len();
    if k > 0 {
        let a = answers.drop_last();
        let t = times.drop_last();
        lemma_verdicts_are_answers(speaker, phase, buf, a, t);
        let prev = run(speaker, phase, buf, a, t);
        let before = detector_calls(speaker, phase, buf, a, t);
        let judged = before.push(DetectorCall::Judge(prev.1.take(CHUNK_SAMPLES as int), answers.last()));
        assert(judged.drop_last() =~= before);
        assert(verdicts(judged) == verdicts(before).push(answers.last()));
        if ends_run(prev.0, answers.last()) {
            assert(judged.push(DetectorCall::Reset).drop_last() =~= judged);
            assert(verdicts(judged.push(DetectorCall::Reset)) == verdicts(judged));
        }
        assert(a.push(answers.last()) =~= answers);
    } else {
        assert(answers =~= Seq::<bool>::empty());
    }
}

/// Feeding chunks of `buf` asks the detector about each consecutive chunk
/// `buf[j * CHUNK_SAMPLES .. (j + 1) * CHUNK_SAMPLES]` once, in order.
pub proof fn lemma_detector_judges_each_chunk(
    speaker: Speaker,
    phase: Phase,
    buf: Seq<i16>,
    answers: Seq<bool>,
    times: Seq<u128>,
)
    requires
        phase.wf(),
        answers.len() == times.len(),
        buf.len() >= answers.len() * CHUNK_SAMPLES,
    ensures
        judged_chunks(detector_calls(speaker, phase, buf, answers, times)) == Seq::new(
            answers.len(),
            |j: int| buf.subrange(j * CHUNK_SAMPLES, (j + 1) * CHUNK_SAMPLES),
        ),
    decreases answers.len(),
{
    let k = answers.len();
    if k > 0 {
        let a = answers.drop_last();
        let t = times.drop_last();
        lemma_detector_judges_each_chunk(speaker, phase, buf, a, t);
        lemma_run_keeps_shape(speaker, phase, buf, a, t);
        let prev = run(speaker, phase, buf, a, t);
        let before = detector_calls(speaker, phase, buf, a, t);
        let chunk = prev.1.take(CHUNK_SAMPLES as int);
        let judged = before.push(DetectorCall::Judge(chunk, answers.last()));
        assert(judged.drop_last() =~= before);
        assert(judged_chunks(judged) == judged_chunks(before).push(chunk));
        if ends_run(prev.0, answers.last()) {
            assert(judged.push(DetectorCall::Reset).drop_last() =~= judged);
        }
        assert(chunk =~= buf.subrange((k - 1) * CHUNK_SAMPLES, k * CHUNK_SAMPLES));
        assert(judged_chunks(detector_calls(speaker, phase, buf, answers, times)) =~= Seq::new(
            k,
            |j: int| buf.subrange(j * CHUNK_SAMPLES, (j + 1) * CHUNK_SAMPLES),
        ));
    }
}

/// Feeding two stretches of answers one after the other is feeding the first,
/// then the second from where the first left off.
pub proof fn lemma_run_concat(
    speaker: Speaker,
    phase: Phase,
    buf: Seq<i16>,
    a1: Seq<bool>,
    t1: Seq<u128>,
    a2: Seq<bool>,
    t2: Seq<u128>,
)
    requires
        a1.len() == t1.len(),
        a2.len() == t2.len(),
    ensures
        ({
            let r1 = run(speaker, phase, buf, a1, t1);
            let r2 = run(speaker, r1.0, r1.1, a2, t2);
            run(speaker, phase, buf, a1 + a2, t1 + t2) == (r2.0, r2.1, r1.2 + r2.2)
        }),
    decreases a2.len(),
{
    let r1 = run(speaker, phase, buf, a1, t1);
    if a2.len() == 0 {
        assert(a1 + a2 =~= a1);
        assert(t1 + t2 =~= t1);
        assert(r1.2 + Seq::<TurnView>::empty() =~= r1.2);
    } else {
        lemma_run_concat(speaker, phase, buf, a1, t1, a2.drop_last(), t2.drop_last());
        assert((a1 + a2).drop_last() =~= a1 + a2.drop_last());
        assert((t1 + t2).drop_last() =~= t1 + t2.drop_last());
        let p = run(speaker, r1.0, r1.1, a2.drop_last(), t2.drop_last());
        let chunk = p.1.take(CHUNK_SAMPLES as int);
        let (next, turn) = step(speaker, p.0, a2.last(), chunk, t2.last());
        match turn {
            Some(t) => {
                assert(r1.2 + p.2.push(t) =~= (r1.2 + p.2).push(t));
            },
            None => {},
        }
    }
}

/// From silence, `n >= 1` speech chunks open a run holding exactly those
/// chunks, started at the time of the first, with the full hangover left.
pub proof fn lemma_speech_opens_run(speaker: Speaker, buf: Seq<i16>, n: nat, times: Seq<u128>)
    requires
        n >= 1,
        times.len() == n,
        buf.len() >= n * CHUNK_SAMPLES,
    ensures
        run(speaker, Phase::Silence, buf, Seq::new(n, |i: int| true), times) == (
            Phase::Speech {
                chunk_count: n,
                audio: buf.take(n * CHUNK_SAMPLES),
                start_ms: times[0],
                hangover_left: HANGOVER_CHUNKS as nat,
            },
            buf.skip(n * CHUNK_SAMPLES),
            Seq::<TurnView>::empty(),
        ),
    decreases n,
{
    let answers = Seq::new(n, |i: int| true);
    let shorter = Seq::new((n - 1) as nat, |i: int| true);
    assert(answers.drop_last() =~= shorter);
    let t = times.drop_last();
    let prev = run(speaker, Phase::Silence, buf, shorter, t);
    if n == 1 {
        assert(shorter =~= Seq::<bool>::empty());
        assert(prev == (Phase::Silence, buf, Seq::<TurnView>::empty()));
        assert(buf.skip(CHUNK_SAMPLES as int) =~= buf.skip(1 * CHUNK_SAMPLES));
        assert(buf.take(CHUNK_SAMPLES as int) =~= buf.take(1 * CHUNK_SAMPLES));
    } else {
        lemma_speech_opens_run(speaker, buf, (n - 1) as nat, t);
        assert(t[0] == times[0]);
        let rest = buf.skip((n - 1) * CHUNK_SAMPLES);
        assert(prev.1 == rest);
        assert(rest.take(CHUNK_SAMPLES as int) =~= buf.subrange((n - 1) * CHUNK_SAMPLES, n * CHUNK_SAMPLES));
        assert(buf.take((n - 1) * CHUNK_SAMPLES) + buf.subrange((n - 1) * CHUNK_SAMPLES, n * CHUNK_SAMPLES)
            =~= buf.take(n * CHUNK_SAMPLES));
        assert(rest.skip(CHUNK_SAMPLES as int) =~= buf.skip(n * CHUNK_SAMPLES));
    }
    assert(run(speaker, Phase::Silence, buf, answers, times).0 == step(
        speaker,
        prev.0,
        true,
        prev.1.take(CHUNK_SAMPLES as int),
        times.last(),
    ).0);
}

/// From a run with `h` hangover chunks left, `k < h` silent chunks join the
/// run and shrink the hangover; the `h`-th ends it, giving a turn of all its
/// audio (ending at the time of that chunk) when the run had at least
/// `MIN_SPEECH_CHUNKS` speech chunks, and nothing otherwise.
pub proof fn lemma_silence_closes_run(
    speaker: Speaker,
    chunk_count: nat,
    audio: Seq<i16>,
    start_ms: u128,
    h: nat,
    buf: Seq<i16>,
    k: nat,
    times: Seq<u128>,
)
    requires
        1 <= h,
        k <= h,
        times.len() == k,
        buf.len() >= k * CHUNK_SAMPLES,
    ensures
        ({
            let phase = Phase::Speech { chunk_count, audio, start_ms, hangover_left: h };
            let r = run(speaker, phase, buf, Seq::new(k, |i: int| false), times);
            let heard = audio + buf.take(k * CHUNK_SAMPLES);
            &&& r.1 == buf.skip(k * CHUNK_SAMPLES)
            &&& k < h ==> r.0 == (Phase::Speech {
                chunk_count,
                audio: heard,
                start_ms,
                hangover_left: (h - k) as nat,
            }) && r.2.len() == 0
            &&& k == h ==> r.0 == Phase::Silence && r.2 == (if chunk_count >= MIN_SPEECH_CHUNKS {
                seq![TurnView { speaker, audio: heard, start_ms, end_ms: times.last() }]
            } else {
                Seq::<TurnView>::empty()
            })
        }),
    decreases k,
{
    let phase = Phase::Speech { chunk_count, audio, start_ms, hangover_left: h };
    let answers = Seq::new(k, |i: int| false);
    if k == 0 {
        assert(buf.skip(0) =~= buf);
        assert(audio + buf.take(0) =~= audio);
    } else {
        let shorter = Seq::new((k - 1) as nat, |i: int| false);
        assert(answers.drop_last() =~= shorter);
        let t = times.drop_last();
        lemma_silence_closes_run(speaker, chunk_count, audio, start_ms, h, buf, (k - 1) as nat, t);
        let prev = run(speaker, phase, buf, shorter, t);
        let rest = buf.skip((k - 1) * CHUNK_SAMPLES);
        assert(prev.1 == rest);
        assert(rest.take(CHUNK_SAMPLES as int) =~= buf.subrange((k - 1) * CHUNK_SAMPLES, k * CHUNK_SAMPLES));
        assert(audio + buf.take((k - 1) * CHUNK_SAMPLES) + buf.subrange((k - 1) * CHUNK_SAMPLES, k * CHUNK_SAMPLES)
            =~= audio + buf.take(k * CHUNK_SAMPLES));
        assert(rest.skip(CHUNK_SAMPLES as int) =~= buf.skip(k * CHUNK_SAMPLES));
        assert(Seq::<TurnView>::empty().push(
            TurnView { speaker, audio: audio + buf.take(k * CHUNK_SAMPLES), start_ms, end_ms: times.last() },
        ) =~= seq![TurnView { speaker, audio: audio + buf.take(k * CHUNK_SAMPLES), start_ms, end_ms: times.last() }]);
    }
}

/// In silence, silent chunks change nothing but the buffer.
pub proof fn lemma_silence_stays(speaker: Speaker, buf: Seq<i16>, k: nat, times: Seq<u128>)
    requires
        times.len() == k,
        buf.len() >= k * CHUNK_SAMPLES,
    ensures
        run(speaker, Phase::Silence, buf, Seq::new(k, |i: int| false), times) == (
            Phase::Silence,
            buf.skip(k * CHUNK_SAMPLES),
            Seq::<TurnView>::empty(),
        ),
    decreases k,
{
    let answers = Seq::new(k, |i: int| false);
    if k == 0 {
        assert(buf.skip(0) =~= buf);
    } else {
        let shorter = Seq::new((k - 1) as nat, |i: int| false);
        assert(answers.drop_last() =~= shorter);
        lemma_silence_stays(speaker, buf, (k - 1) as nat, times.drop_last());
        assert(buf.skip((k - 1) * CHUNK_SAMPLES).skip(CHUNK_SAMPLES as int) =~= buf.skip(k * CHUNK_SAMPLES));
    }
}

/// Speech followed by silence: from silence, `s >= 1` chunks judged speech and
/// then `h` judged silent give
/// - with `h >= HANGOVER_CHUNKS`: silence again, and one turn holding the
///   first `s + HANGOVER_CHUNKS` chunks, from the time of the first to the
///   time of the last of them, if `s >= MIN_SPEECH_CHUNKS`, or no turn (a
///   noise burst) otherwise;
/// - with `h < HANGOVER_CHUNKS`: no turn, and the run still open.
pub proof fn lemma_speech_then_silence(speaker: Speaker, buf: Seq<i16>, s: nat, h: nat, times: Seq<u128>)
    requires
        s >= 1,
        times.len() == s + h,
        buf.len() == (s + h) * CHUNK_SAMPLES,
    ensures
        ({
            let r = run(speaker, Phase::Silence, buf, Seq::new(s + h, |i: int| i < s), times);
            &&& h >= HANGOVER_CHUNKS ==> r.0 == Phase::Silence
            &&& h >= HANGOVER_CHUNKS && s >= MIN_SPEECH_CHUNKS ==> r.2 == seq![
                TurnView {
                    speaker,
                    audio: buf.take((s + HANGOVER_CHUNKS) * CHUNK_SAMPLES),
                    start_ms: times[0],
                    end_ms: times[s + HANGOVER_CHUNKS - 1],
                },
            ]
            &&& h >= HANGOVER_CHUNKS && s < MIN_SPEECH_CHUNKS ==> r.2.len() == 0
            &&& h < HANGOVER_CHUNKS ==> r.2.len() == 0 && r.0 is Speech
        }),
{
    let n = s + h;
    let answers = Seq::new(n, |i: int| i < s);
    let speech = Seq::new(s, |i: int| true);
    let t1 = times.take(s as int);
    lemma_speech_opens_run(speaker, buf, s, t1);
    let r1 = run(speaker, Phase::Silence, buf, speech, t1);
    let hg = HANGOVER_CHUNKS as nat;
    let rest = buf.skip(s * CHUNK_SAMPLES);
    assert(rest.len() == h * CHUNK_SAMPLES) by (nonlinear_arith)
        requires
            buf.len() == (s + h) * CHUNK_SAMPLES,
            rest.len() == buf.len() - s * CHUNK_SAMPLES,
    ;
    if h < hg {
        let silent = Seq::new(h, |i: int| false);
        let t2 = times.skip(s as int);
        assert(answers =~= speech + silent);
        assert(times =~= t1 + t2);
        lemma_run_concat(speaker, Phase::Silence, buf, speech, t1, silent, t2);
        lemma_silence_closes_run(speaker, s, buf.take(s * CHUNK_SAMPLES), t1[0], hg, rest, h, t2);
    } else {
        let closing = Seq::new(hg, |i: int| false);
        let after = Seq::new((h - hg) as nat, |i: int| false);
        let t2 = times.subrange(s as int, (s + hg) as int);
        let t3 = times.skip((s + hg) as int);
        assert(answers =~= speech + closing + after);
        assert(times =~= t1 + t2 + t3);
        lemma_run_concat(speaker, Phase::Silence, buf, speech, t1, closing, t2);
        lemma_silence_closes_run(speaker, s, buf.take(s * CHUNK_SAMPLES), t1[0], hg, rest, hg, t2);
        let r2 = run(speaker, r1.0, r1.1, closing, t2);
        assert(rest.len() >= hg * CHUNK_SAMPLES) by (nonlinear_arith)
            requires
                rest.len() == h * CHUNK_SAMPLES,
                h >= hg,
        ;
        lemma_run_concat(speaker, Phase::Silence, buf, speech + closing, t1 + t2, after, t3);
        let tail = rest.skip(hg * CHUNK_SAMPLES);
        assert(tail.len() == (h - hg) * CHUNK_SAMPLES) by (nonlinear_arith)
            requires
                rest.len() == h * CHUNK_SAMPLES,
                tail.len() == rest.len() - hg * CHUNK_SAMPLES,
                h >= hg,
        ;
        lemma_silence_stays(speaker, tail, (h - hg) as nat, t3);
        assert(buf.take(s * CHUNK_SAMPLES) + rest.take(hg * CHUNK_SAMPLES) =~= buf.take(
            (s + HANGOVER_CHUNKS) * CHUNK_SAMPLES,
        ));
        assert(t2.last() == times[s + HANGOVER_CHUNKS - 1]);
        let turns = r2.2;
        assert(turns + Seq::<TurnView>::empty() =~= turns);
        assert(Seq::<TurnView>::empty() + turns =~= turns);
    }
}

/// Silence ends a run exactly when the hangover runs out: from a run with
/// `h` hangover chunks left, `k < h` silent chunks leave it running with
/// `h - k` left, and the `h`-th silent chunk ends it. After a speech chunk
/// `h` is `HANGOVER_CHUNKS`.
pub proof fn lemma_silence_ends_run(
    speaker: Speaker,
    chunk_count: nat,
    audio: Seq<i16>,
    start_ms: u128,
    h: nat,
    buf: Seq<i16>,
    k: nat,
    times: Seq<u128>,
)
    requires
        1 <= h,
        k <= h,
        times.len() == k,
        buf.len() >= k * CHUNK_SAMPLES,
    ensures
        ({
            let phase = Phase::Speech { chunk_count, audio, start_ms, hangover_left: h };
            let end = run(speaker, phase, buf, Seq::new(k, |i: int| false), times).0;
            &&& k < h ==> (end matches Phase::Speech { hangover_left, .. } && hangover_left == h - k)
            &&& k == h ==> end == Phase::Silence
        }),
    decreases k,
{
    let phase = Phase::Speech { chunk_count, audio, start_ms, hangover_left: h };
    if k > 0 {
        let answers = Seq::new(k, |i: int| false);
        assert(answers.drop_last() =~= Seq::new((k - 1) as nat, |i: int| false));
        lemma_silence_ends_run(speaker, chunk_count, audio, start_ms, h, buf, (k - 1) as nat, times.drop_last());
    }
}

/// `audio` followed by `chunk`.
fn extended(audio: Vec<i16>, chunk: &[i16]) -> (r: Vec<i16>)
    ensures
        r@ == audio@ + chunk@,
{
    let mut audio = audio;
    let ghost before = audio@;
    audio.extend_from_slice(chunk);
    assert(audio@ =~= before + chunk@);
    audio
}

/// A run that continues with a speech chunk.
pub fn speech_continued(chunk_count: usize, audio: Vec<i16>, start_ms: u128, chunk: &[i16]) -> (r:
    TurnState)
    requires
        1 <= chunk_count,
        audio@.len() >= chunk_count * CHUNK_SAMPLES,
        chunk@.len() == CHUNK_SAMPLES,
    ensures
        r@ == (Phase::Speech {
            chunk_count: (chunk_count + 1) as nat,
            audio: audio@ + chunk@,
            start_ms,
            hangover_left: HANGOVER_CHUNKS as nat,
        }),
        r@.wf(),
{
    let n = audio.len();
    assert(chunk_count <= n / 512) by (nonlinear_arith)
        requires
            n >= chunk_count * 512,
    ;
    let audio = extended(audio, chunk);
    TurnState::Speech { chunk_count: chunk_count + 1, audio, start_ms, hangover_left: HANGOVER_CHUNKS }
}

/// A run that takes a silent chunk while hangover chunks are left.
pub fn speech_in_hangover(
    chunk_count: usize,
    audio: Vec<i16>,
    start_ms: u128,
    hangover_left: usize,
    chunk: &[i16],
) -> (r: TurnState)
    requires
        1 <= chunk_count,
        audio@.len() >= chunk_count * CHUNK_SAMPLES,
        1 < hangover_left <= HANGOVER_CHUNKS,
    ensures
        r@ == (Phase::Speech {
            chunk_count: chunk_count as nat,
            audio: audio@ + chunk@,
            start_ms,
            hangover_left: (hangover_left - 1) as nat,
        }),
        r@.wf(),
{
    let audio = extended(audio, chunk);
    TurnState::Speech { chunk_count, audio, start_ms, hangover_left: hangover_left - 1 }
}

/// The effect of one chunk on `state`, as `step` describes it; `now_ms` is the
/// time of the chunk.
pub fn transition(speaker: Speaker, state: TurnState, is_speech: bool, chunk: &[i16], now_ms: u128) -> (r: (
    TurnState,
    Option<SpeechTurn>,
))
    requires
        state@.wf(),
        chunk@.len() == CHUNK_SAMPLES,
    ensures
        (r.0@, opt_turn_view(r.1)) == step(speaker, state@, is_speech, chunk@, now_ms),
        r.0@.wf(),
{
    match state {
        TurnState::Silence => {
            if is_speech {
                let audio = extended(Vec::new(), chunk);
                assert(audio@ =~= chunk@);
                (
                    TurnState::Speech {
                        chunk_count: 1,
                        audio,
                        start_ms: now_ms,
                        hangover_left: HANGOVER_CHUNKS,
                    },
                    None,
                )
            } else {
                (TurnState::Silence, None)
            }
        },
        TurnState::Speech { chunk_count, audio, start_ms, hangover_left } => {
            if is_speech {
                (speech_continued(chunk_count, audio, start_ms, chunk), None)
            } else if hangover_left > 1 {
                (speech_in_hangover(chunk_count, audio, start_ms, hangover_left, chunk), None)
            } else {
                let audio = extended(audio, chunk);
                if chunk_count >= MIN_SPEECH_CHUNKS {
                    (TurnState::Silence, Some(SpeechTurn { speaker, audio, start_ms, end_ms: now_ms }))
                } else {
                    (TurnState::Silence, None)
                }
            }
        },
    }
}

/// Whether `chunk` ends the speech run of `state`.
fn ends_speech_run(state: &TurnState, is_speech: bool) -> (r: bool)
    ensures
        r == ends_run(state@, is_speech),
{
    match state {
        TurnState::Silence => false,
        TurnState::Speech { hangover_left, .. } => !is_speech && *hangover_left <= 1,
    }
}

/// Whether the effect of a chunk on `state` depends on the time.
fn needs_clock(state: &TurnState, is_speech: bool) -> (r: bool)
    ensures
        r == reads_clock(state@, is_speech),
{
    match state {
        TurnState::Silence => is_speech,
        TurnState::Speech { hangover_left, .. } => !is_speech && *hangover_left <= 1,
    }
}

// ── Clock ─────────────────────────────────────────────────────────────────────

#[verifier::external_type_specification]
#[verifier::external_body]
pub struct ExSystemTime(std::time::SystemTime);

#[verifier::external_type_specification]
#[verifier::external_body]
pub struct ExSystemTimeError(std::time::SystemTimeError);

/// `SystemTime::now`: the current wall-clock time. Nothing is claimed of it.
#[verifier::external_body]
fn system_now() -> std::time::SystemTime {
    std::time::SystemTime::now()
}

/// `SystemTime::duration_since(UNIX_EPOCH)`: the time elapsed since the Unix
/// epoch, or an error for a time before it. Nothing is claimed of the value.
#[verifier::external_body]
fn since_unix_epoch(t: &std::time::SystemTime) -> std::result::Result<std::time::Duration, std::time::SystemTimeError> {
    t.duration_since(std::time::UNIX_EPOCH)
}

/// `Duration::as_millis`: whole milliseconds of a duration. Nothing is claimed
/// of the value, which depends on a duration Verus cannot see into.
#[verifier::external_body]
fn duration_millis(d: &std::time::Duration) -> u128 {
    d.as_millis()
}

/// Milliseconds since the Unix epoch, or 0 when the clock reads earlier.
fn now_ms() -> u128 {
    match since_unix_epoch(&system_now()) {
        Ok(d) => duration_millis(&d),
        Err(_) => 0,
    }
}

// ── Channel ───────────────────────────────────────────────────────────────────

/// Detects and delimits the speech turns of one speaker. Samples are buffered
/// until a full chunk is available; each chunk is judged by the detector and
/// moves the turn state machine one step.
pub struct VadChannel<D: VoiceDetector> {
    vad: D,
    speaker: Speaker,
    sample_buf: Vec<i16>,
    state: TurnState,
}

impl<D: VoiceDetector> VadChannel<D> {
    /// Fewer than a chunk of samples wait in the buffer, and the state is well formed.
    pub closed spec fn wf(&self) -> bool {
        &&& self.sample_buf@.len() < CHUNK_SAMPLES
        &&& self.state@.wf()
    }

    /// The speaker whose turns this channel delimits.
    pub closed spec fn speaker_of(&self) -> Speaker {
        self.speaker
    }

    /// Samples waiting for a full chunk.
    pub closed spec fn pending(&self) -> Seq<i16> {
        self.sample_buf@
    }

    /// Where the turn state machine stands.
    pub closed spec fn phase(&self) -> Phase {
        self.state@
    }

    /// What the detector has been asked to do so far, oldest first.
    pub closed spec fn detector_log(&self) -> Seq<DetectorCall> {
        self.vad.calls()
    }

    /// A channel for `speaker` in silence, with nothing buffered.
    pub fn new(speaker: Speaker, vad: D) -> (r: Self)
        ensures
            r.wf(),
            r.phase().wf(),
            r.detector_log() == vad.calls(),
            r.speaker_of() == speaker,
            r.pending() == Seq::<i16>::empty(),
            r.phase() == Phase::Silence,
    {
        VadChannel { vad, speaker, sample_buf: Vec::new(), state: TurnState::Silence }
    }

    /// Buffers `samples`, runs every complete chunk through the detector and the
    /// state machine, and returns the turns completed. Whatever the detector
    /// answers and the clock reads, the outcome is `run` over one answer and one
    /// time per chunk, where the answers are the detector's own verdicts on
    /// the chunks; the detector is asked exactly what `detector_calls` lists:
    /// each chunk in order, and a reset after each run that ends.
    pub fn push(&mut self, samples: &[i16]) -> (completed: Vec<SpeechTurn>)
        requires
            old(self).wf(),
        ensures
            final(self).wf(),
            final(self).phase().wf(),
            final(self).pending().len() < CHUNK_SAMPLES,
            final(self).speaker_of() == old(self).speaker_of(),
            exists|answers: Seq<bool>, times: Seq<u128>|
                {
                    &&& answers.len() == (old(self).pending() + samples@).len() / (CHUNK_SAMPLES as nat)
                    &&& answers.len() == times.len()
                    &&& run(old(self).speaker_of(), old(self).phase(), old(self).pending() + samples@, answers, times)
                        == (final(self).phase(), final(self).pending(), turn_views(completed@))
                    &&& final(self).detector_log() == old(self).detector_log() + detector_calls(
                        old(self).speaker_of(),
                        old(self).phase(),
                        old(self).pending() + samples@,
                        answers,
                        times,
                    )
                    &&& answers == verdicts(final(self).detector_log().skip(old(self).detector_log().len() as int))
                },
    {
        let ghost phase0 = self.state@;
        let ghost buf0 = self.sample_buf@ + samples@;
        let ghost mut answers: Seq<bool> = Seq::empty();
        let ghost mut times: Seq<u128> = Seq::empty();
        let ghost before = self.sample_buf@;
        self.sample_buf.extend_from_slice(samples);
        assert(self.sample_buf@ =~= buf0);
        let mut completed: Vec<SpeechTurn> = Vec::new();
        assert(turn_views(completed@) =~= Seq::<TurnView>::empty());
        while self.sample_buf.len() >= CHUNK_SAMPLES
            invariant
                self.state@.wf(),
                self.speaker == old(self).speaker,
                answers.len() == times.len(),
                buf0.len() == self.sample_buf@.len() + answers.len() * CHUNK_SAMPLES,
                run(self.speaker, phase0, buf0, answers, times) == (
                    self.state@,
                    self.sample_buf@,
                    turn_views(completed@),
                ),
                self.vad.calls() == old(self).vad.calls() + detector_calls(self.speaker, phase0, buf0, answers, times),
            decreases self.sample_buf@.len(),
        {
            let ghost calls0 = self.vad.calls();
            let ghost phase_before = self.state@;
            let ghost answers0 = answers;
            let ghost times0 = times;
            let chunk = self.drain_next_chunk();
            let is_speech = self.vad.is_speech(chunk.as_slice());
            let now = if needs_clock(&self.state, is_speech) {
                now_ms()
            } else {
                0
            };
            let ends = ends_speech_run(&self.state, is_speech);
            let mut state = TurnState::Silence;
            std::mem::swap(&mut state, &mut self.state);
            let ghost prev_views = turn_views(completed@);
            let (next, turn) = transition(self.speaker, state, is_speech, chunk.as_slice(), now);
            self.state = next;
            proof {
                let old_answers = answers;
                let old_times = times;
                answers = answers.push(is_speech);
                times = times.push(now);
                assert(answers.drop_last() =~= old_answers);
                assert(times.drop_last() =~= old_times);
            }
            match turn {
                Some(t) => {
                    proof {
                        completed@.lemma_push_map_commute(|t: SpeechTurn| t@, t);
                    }
                    completed.push(t);
                },
                None => {},
            }
            if ends {
                self.vad.reset();
            }
            proof {
                let calls = detector_calls(self.speaker, phase0, buf0, answers0, times0);
                let judged = calls0.push(DetectorCall::Judge(chunk@, is_speech));
                assert(old(self).vad.calls() + calls.push(DetectorCall::Judge(chunk@, is_speech)) =~= judged);
                if ends {
                    assert(old(self).vad.calls() + calls.push(DetectorCall::Judge(chunk@, is_speech)).push(DetectorCall::Reset)
                        =~= judged.push(DetectorCall::Reset));
                }
            }
        }
        proof {
            assert(answers.len() == buf0.len() / (CHUNK_SAMPLES as nat)) by (nonlinear_arith)
                requires
                    buf0.len() == self.sample_buf@.len() + answers.len() * 512,
                    self.sample_buf@.len() < 512,
            ;
            assert(old(self).pending() + samples@ == buf0);
            assert(old(self).phase() == phase0);
            assert(old(self).speaker_of() == self.speaker);
            assert(run(old(self).speaker_of(), old(self).phase(), old(self).pending() + samples@, answers, times) == (
                self.phase(),
                self.pending(),
                turn_views(completed@),
            ));
            assert(self.detector_log() == old(self).detector_log() + detector_calls(
                old(self).speaker_of(),
                old(self).phase(),
                old(self).pending() + samples@,
                answers,
                times,
            ));
            lemma_verdicts_are_answers(self.speaker, phase0, buf0, answers, times);
            assert(self.detector_log().skip(old(self).detector_log().len() as int) =~= detector_calls(
                self.speaker,
                phase0,
                buf0,
                answers,
                times,
            ));
        }
        completed
    }

    /// Removes and returns the first chunk of buffered samples.
    fn drain_next_chunk(&mut self) -> (chunk: Vec<i16>)
        requires
            old(self).sample_buf@.len() >= CHUNK_SAMPLES,
        ensures
            chunk@ == old(self).sample_buf@.take(CHUNK_SAMPLES as int),
            final(self).sample_buf@ == old(self).sample_buf@.skip(CHUNK_SAMPLES as int),
            final(self).state == old(self).state,
            final(self).speaker == old(self).speaker,
            final(self).vad == old(self).vad,
    {
        let mut head = self.sample_buf.split_off(CHUNK_SAMPLES);
        std::mem::swap(&mut head, &mut self.sample_buf);
        head
    }
}

} // verus!
