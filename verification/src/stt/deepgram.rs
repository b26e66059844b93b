//! Turn assembly for the streaming transcription service: audio encoding,
//! interpretation of its result messages, and the rules that decide when the
//! text heard so far becomes a finished turn.
//!
//! The service's own end-of-speech signal (`speech_final`) closes a turn at
//! once. A turn end seen by the local detector only arms a deadline; if the
//! service has not closed the turn when it passes, the text is flushed anyway.
use vstd::prelude::*;
use vstd::string::*;

use super::TurnComplete;
use crate::audio::Speaker;
use crate::config::deepgram::{FLUSH_GRACE_MS, RECONNECT_DELAY_MS};

verus! {

// ── Audio ─────────────────────────────────────────────────────────────────────

/// The two's-complement value of a sample as an unsigned 16-bit number.
pub open spec fn unsigned16(s: i16) -> int {
    if s < 0 {
        s + 65536
    } else {
        s as int
    }
}

/// Samples as 16-bit little-endian PCM: low byte first.
pub open spec fn le_bytes(samples: Seq<i16>) -> Seq<u8> {
    Seq::new(
        2 * samples.len(),
        |i: int|
            if i % 2 == 0 {
                (unsigned16(samples[i / 2]) % 256) as u8
            } else {
                (unsigned16(samples[i / 2]) / 256) as u8
            },
    )
}

/// Encodes samples as the little-endian 16-bit PCM the service expects.
pub fn encode_samples(samples: &[i16]) -> (r: Vec<u8>)
    requires
        2 * samples@.len() <= usize::MAX,
    ensures
        r@ == le_bytes(samples@),
{
    let mut r: Vec<u8> = Vec::new();
    let n = samples.len();
    for k in 0..n
        invariant
            n == samples@.len(),
            r@.len() == 2 * k,
            forall|i: int| 0 <= i < 2 * k ==> #[trigger] r@[i] == le_bytes(samples@)[i],
    {
        let s = samples[k];
        let u: u32 = if s < 0 {
            (s as i32 + 65536) as u32
        } else {
            s as u32
        };
        assert(u as int == unsigned16(s));
        r.push((u % 256) as u8);
        r.push((u / 256) as u8);
        assert((2 * k) / 2 == k && (2 * k + 1) / 2 == k && (2 * k) % 2 == 0 && (2 * k + 1) % 2
            == 1);
    }
    assert(r@ =~= le_bytes(samples@));
    r
}

/// The samples read back from their little-endian bytes: each pair of bytes,
/// low byte first, is the sample's two's-complement value.
pub proof fn lemma_le_bytes_round_trip(samples: Seq<i16>, i: int)
    requires
        0 <= i < samples.len(),
    ensures
        ({
            let b = le_bytes(samples);
            let u = b[2 * i] as int + 256 * (b[2 * i + 1] as int);
            (if u >= 32768 {
                u - 65536
            } else {
                u
            }) == samples[i] as int
        }),
        le_bytes(samples).len() == 2 * samples.len(),
{
    let b = le_bytes(samples);
    let u = unsigned16(samples[i]);
    assert((2 * i) / 2 == i && (2 * i + 1) / 2 == i && (2 * i) % 2 == 0 && (2 * i + 1) % 2 == 1);
    assert(b[2 * i] as int == u % 256);
    assert(b[2 * i + 1] as int == u / 256);
}

// ── Result messages ───────────────────────────────────────────────────────────

/// One alternative transcription of an utterance.
pub struct DgAlternative {
    pub transcript: String,
}

/// The channel section of a result message.
pub struct DgChannel {
    pub alternatives: Vec<DgAlternative>,
}

/// The fields of a service message that turn assembly reads.
pub struct DgResponse {
    pub kind: String,
    pub is_final: Option<bool>,
    pub speech_final: Option<bool>,
    pub channel: Option<DgChannel>,
}

/// What a result message contributes: a finalised fragment of text, if any,
/// and whether the service saw the end of speech.
pub struct ResultsEvent {
    pub fragment: Option<String>,
    pub speech_final: bool,
}

/// The view of an optional string.
pub open spec fn opt_view(s: Option<String>) -> Option<Seq<char>> {
    match s {
        Some(s) => Some(s@),
        None => None,
    }
}

/// The first alternative's transcript of a message, when there is one.
pub open spec fn first_transcript(resp: DgResponse) -> Option<Seq<char>> {
    match resp.channel {
        Some(c) => if c.alternatives@.len() > 0 {
            Some(c.alternatives@[0].transcript@)
        } else {
            None
        },
        None => None,
    }
}

/// The fragment a message contributes: the first transcript of a final
/// result, unless it is empty.
pub open spec fn spec_fragment(resp: DgResponse) -> Option<Seq<char>> {
    if resp.is_final == Some(true) {
        match first_transcript(resp) {
            Some(t) => if t.len() > 0 {
                Some(t)
            } else {
                None
            },
            None => None,
        }
    } else {
        None
    }
}

/// A final result contributes its first transcript, when that is non-empty,
/// and nothing else; whether the service also saw the end of speech has no
/// bearing on the fragment, so the words of the result that closes an
/// utterance are kept.
pub proof fn lemma_fragment_ignores_speech_final(resp: DgResponse, other: Option<bool>)
    ensures
        spec_fragment(DgResponse { speech_final: other, ..resp }) == spec_fragment(resp),
        resp.is_final == Some(true) && first_transcript(resp) is Some && first_transcript(resp)->0.len() > 0
            ==> spec_fragment(resp) == first_transcript(resp),
        resp.is_final != Some(true) ==> spec_fragment(resp) is None,
        spec_fragment(resp) matches Some(t) ==> t.len() > 0 && first_transcript(resp) == Some(t),
{
}

/// Reads a service message: only `"Results"` messages count.
pub fn results_event(resp: DgResponse) -> (r: Option<ResultsEvent>)
    ensures
        resp.kind@ != "Results"@ ==> r is None,
        resp.kind@ == "Results"@ ==> (r matches Some(e) && e.speech_final == (resp.speech_final
            == Some(true)) && opt_view(e.fragment) == spec_fragment(resp)),
{
    let results = String::from_str("Results");
    if !(resp.kind == results) {
        return None;
    }
    let speech_final = match resp.speech_final {
        Some(b) => b,
        None => false,
    };
    let is_final = match resp.is_final {
        Some(b) => b,
        None => false,
    };
    let fragment = if is_final {
        match resp.channel {
            Some(c) => {
                let mut alternatives = c.alternatives;
                if alternatives.len() > 0 {
                    let first = alternatives.remove(0);
                    if first.transcript.as_str().unicode_len() > 0 {
                        Some(first.transcript)
                    } else {
                        None
                    }
                } else {
                    None
                }
            },
            None => None,
        }
    } else {
        None
    };
    Some(ResultsEvent { fragment, speech_final })
}

// ── Turn assembly ─────────────────────────────────────────────────────────────

/// The text after adding `fragment`: empty fragments change nothing, and
/// fragments are separated by one space.
pub open spec fn accumulated_with(acc: Seq<char>, fragment: Seq<char>) -> Seq<char> {
    if fragment.len() == 0 {
        acc
    } else if acc.len() == 0 {
        fragment
    } else {
        acc + " "@ + fragment
    }
}

/// The text after adding `frags` to `acc`, in order.
pub open spec fn accumulated_all(acc: Seq<char>, frags: Seq<Seq<char>>) -> Seq<char>
    decreases frags.len(),
{
    if frags.len() == 0 {
        acc
    } else {
        accumulated_with(accumulated_all(acc, frags.drop_last()), frags.last())
    }
}

/// The pieces joined by single spaces.
pub open spec fn joined_by_spaces(frags: Seq<Seq<char>>) -> Seq<char>
    decreases frags.len(),
{
    if frags.len() == 0 {
        Seq::empty()
    } else if frags.len() == 1 {
        frags[0]
    } else {
        joined_by_spaces(frags.drop_last()) + " "@ + frags.last()
    }
}

/// A turn assembled from non-empty fragments reads as the fragments joined
/// by single spaces, in the order they arrived.
pub proof fn lemma_fragments_join(frags: Seq<Seq<char>>)
    requires
        forall|i: int| 0 <= i < frags.len() ==> #[trigger] frags[i].len() > 0,
    ensures
        accumulated_all(Seq::empty(), frags) == joined_by_spaces(frags),
        frags.len() > 0 ==> accumulated_all(Seq::empty(), frags).len() > 0,
    decreases frags.len(),
{
    if frags.len() > 0 {
        let prev = frags.drop_last();
        assert forall|i: int| 0 <= i < prev.len() implies #[trigger] prev[i].len() > 0 by {
            assert(prev[i] == frags[i]);
        }
        lemma_fragments_join(prev);
        assert(frags.last().len() > 0);
        if frags.len() == 1 {
            assert(frags.last() == frags[0]);
        }
    }
}

/// Adds a transcribed fragment to the text of the current turn.
pub fn accumulate(accumulated: &mut String, fragment: &str)
    ensures
        final(accumulated)@ == accumulated_with(old(accumulated)@, fragment@),
{
    proof {
        reveal_strlit(" ");
    }
    if fragment.unicode_len() == 0 {
        return ;
    }
    if accumulated.as_str().unicode_len() > 0 {
        accumulated.append(" ");
    }
    accumulated.append(fragment);
}

/// Ends the current turn: when text has accumulated, it becomes a finished
/// turn of `speaker` and the accumulator is emptied; otherwise nothing happens.
pub fn flush_turn(accumulated: &mut String, speaker: Speaker) -> (r: Option<TurnComplete>)
    ensures
        old(accumulated)@.len() == 0 ==> r is None && final(accumulated)@ == old(accumulated)@,
        old(accumulated)@.len() > 0 ==> (r matches Some(t) && t.speaker == speaker && t.text@
            == old(accumulated)@ && final(accumulated)@.len() == 0),
{
    if accumulated.as_str().unicode_len() == 0 {
        return None;
    }
    let mut text = String::new();
    std::mem::swap(&mut text, accumulated);
    Some(TurnComplete { speaker, text })
}

/// The state of turn assembly for one speaker: the text heard since the last
/// finished turn, and the time by which a locally detected turn end forces a
/// flush, if one is pending. Times are milliseconds on a monotonic clock.
pub struct TurnAssembly {
    accumulated: String,
    flush_deadline: Option<u64>,
}

impl TurnAssembly {
    /// The text heard since the last finished turn.
    pub closed spec fn text(&self) -> Seq<char> {
        self.accumulated@
    }

    /// When a pending fallback flush is due.
    pub closed spec fn deadline(&self) -> Option<u64> {
        self.flush_deadline
    }

    /// The text heard and the pending deadline, together.
    pub open spec fn state(&self) -> Assembly {
        Assembly { text: self.text(), deadline: self.deadline() }
    }

    /// Nothing heard, no flush pending.
    pub fn new() -> (r: Self)
        ensures
            r.text() == Seq::<char>::empty(),
            r.deadline() is None,
    {
        TurnAssembly { accumulated: String::new(), flush_deadline: None }
    }

    /// A new connection to the service starts with no flush pending; text
    /// heard before the reconnection is kept.
    pub fn begin_session(&mut self)
        ensures
            final(self).text() == old(self).text(),
            final(self).deadline() is None,
    {
        self.flush_deadline = None;
    }

    /// When a pending fallback flush is due.
    pub fn flush_deadline(&self) -> (r: Option<u64>)
        ensures
            r == self.deadline(),
    {
        self.flush_deadline
    }

    /// A result message: its fragment joins the text; if the service saw the
    /// end of speech, the turn is flushed and any pending deadline is dropped.
    pub fn on_results(&mut self, event: ResultsEvent, speaker: Speaker) -> (r: Option<TurnComplete>)
        ensures
            ({
                let acc = match event.fragment {
                    Some(f) => accumulated_with(old(self).text(), f@),
                    None => old(self).text(),
                };
                if event.speech_final {
                    &&& final(self).deadline() is None
                    &&& acc.len() == 0 ==> r is None && final(self).text() == acc
                    &&& acc.len() > 0 ==> (r matches Some(t) && t.speaker == speaker && t.text@
                        == acc && final(self).text().len() == 0)
                } else {
                    &&& r is None
                    &&& final(self).text() == acc
                    &&& final(self).deadline() == old(self).deadline()
                }
            }),
            !event.speech_final ==> final(self).state() == after_event(
                old(self).state(),
                PendingEvent::Partial(opt_view(event.fragment)),
            ),
    {
        match event.fragment {
            Some(f) => accumulate(&mut self.accumulated, f.as_str()),
            None => {},
        }
        if event.speech_final {
            let turn = flush_turn(&mut self.accumulated, speaker);
            self.flush_deadline = None;
            turn
        } else {
            None
        }
    }

    /// The local detector saw the speaker stop at `now_ms`: a fallback flush is
    /// armed `FLUSH_GRACE_MS` later, unless one is already pending.
    pub fn on_local_turn_end(&mut self, now_ms: u64)
        requires
            now_ms <= u64::MAX - FLUSH_GRACE_MS,
        ensures
            final(self).text() == old(self).text(),
            old(self).deadline() is Some ==> final(self).deadline() == old(self).deadline(),
            old(self).deadline() is None ==> final(self).deadline() == Some((now_ms + FLUSH_GRACE_MS) as u64),
            final(self).state() == after_local_turn_end(old(self).state(), now_ms),
    {
        if self.flush_deadline.is_none() {
            self.flush_deadline = Some(now_ms + FLUSH_GRACE_MS);
        }
    }

    /// The pending deadline passed without the service closing the turn: the
    /// text heard so far is flushed and the deadline cleared.
    pub fn on_flush_timeout(&mut self, speaker: Speaker) -> (r: Option<TurnComplete>)
        ensures
            final(self).deadline() is None,
            old(self).text().len() == 0 ==> r is None && final(self).text() == old(self).text(),
            old(self).text().len() > 0 ==> (r matches Some(t) && t.speaker == speaker && t.text@
                == old(self).text() && final(self).text().len() == 0),
            opt_turn_text(r) == flushed_text(old(self).state()),
            final(self).state() == (Assembly { text: Seq::empty(), deadline: None }),
    {
        let turn = flush_turn(&mut self.accumulated, speaker);
        self.flush_deadline = None;
        assert(self.accumulated@ =~= Seq::<char>::empty());
        turn
    }
}

/// What turn assembly holds: the text heard since the last finished turn and
/// the pending flush deadline.
pub struct Assembly {
    pub text: Seq<char>,
    pub deadline: Option<u64>,
}

/// What can happen while a fallback flush is pending, short of the service
/// closing the turn itself.
pub enum PendingEvent {
    /// A result message without end of speech, with its fragment, if any.
    Partial(Option<Seq<char>>),
    /// The local detector saw the speaker stop again, at this time.
    LocalTurnEnd(u64),
}

/// A local turn end at `now`: a flush is armed `FLUSH_GRACE_MS` later unless
/// one is pending; the text is kept.
pub open spec fn after_local_turn_end(a: Assembly, now: u64) -> Assembly {
    Assembly {
        text: a.text,
        deadline: match a.deadline {
            Some(d) => Some(d),
            None => Some((now + FLUSH_GRACE_MS) as u64),
        },
    }
}

/// The effect of one event while a flush is pending.
pub open spec fn after_event(a: Assembly, e: PendingEvent) -> Assembly {
    match e {
        PendingEvent::Partial(fragment) => Assembly {
            text: match fragment {
                Some(f) => accumulated_with(a.text, f),
                None => a.text,
            },
            deadline: a.deadline,
        },
        PendingEvent::LocalTurnEnd(now) => after_local_turn_end(a, now),
    }
}

/// The effect of a sequence of events, in order.
pub open spec fn after_events(a: Assembly, events: Seq<PendingEvent>) -> Assembly
    decreases events.len(),
{
    if events.len() == 0 {
        a
    } else {
        after_event(after_events(a, events.drop_last()), events.last())
    }
}

/// The text a flush hands over: the whole text heard, unless there is none.
pub open spec fn flushed_text(a: Assembly) -> Option<Seq<char>> {
    if a.text.len() > 0 {
        Some(a.text)
    } else {
        None
    }
}

/// The text of an optional finished turn.
pub open spec fn opt_turn_text(t: Option<TurnComplete>) -> Option<Seq<char>> {
    match t {
        Some(t) => Some(t.text@),
        None => None,
    }
}

/// The local detector bounds the wait for the service: once a turn end is
/// seen at `t` with no flush pending, the flush is due at exactly
/// `t + FLUSH_GRACE_MS` whatever partial results and further local turn ends
/// follow, and the text it will hand over is the text those results build.
pub proof fn lemma_fallback_flush_is_bounded(a: Assembly, t: u64, events: Seq<PendingEvent>)
    requires
        a.deadline is None,
        t <= u64::MAX - FLUSH_GRACE_MS,
    ensures
        after_events(after_local_turn_end(a, t), events).deadline == Some((t + FLUSH_GRACE_MS) as u64),
        after_events(after_local_turn_end(a, t), events).text == after_events(a, events).text,
    decreases events.len(),
{
    if events.len() > 0 {
        lemma_fallback_flush_is_bounded(a, t, events.drop_last());
    }
}

// ── Connection supervision ────────────────────────────────────────────────────

/// How a streaming session with the service ended.
#[derive(Debug, Clone, Copy, PartialEq, Eq, Structural)]
pub enum SessionOutcome {
    /// The service closed the stream or it failed.
    StreamClosed,
    /// The audio source is gone: there is nothing more to stream.
    Done,
}

/// What the connection supervisor does next.
#[derive(Debug, Clone, Copy, PartialEq, Eq, Structural)]
pub enum SupervisorAction {
    /// Stop supervising.
    Stop,
    /// Open a new session at once.
    Reconnect,
    /// Wait this many milliseconds, then try to connect again.
    RetryAfterMs(u64),
}

/// Something that happens during a streaming session.
#[derive(Debug, Clone, Copy, PartialEq, Eq, Structural)]
pub enum SessionEvent {
    /// The service's stream yielded an item: `true` for a message, `false`
    /// when it ended or failed.
    StreamItem(bool),
    /// The audio channel yielded an item: `true` for a block of samples,
    /// `false` when the audio source is gone.
    AudioItem(bool),
    /// The turn-end channel yielded an item: `true` for a local turn end,
    /// `false` when the detector side is gone.
    TurnEndItem(bool),
    /// The pending fallback flush is due.
    FlushDue,
}

/// What a session does about an event.
#[derive(Debug, Clone, Copy, PartialEq, Eq, Structural)]
pub enum SessionReaction {
    /// Read the message as a result and pass it to turn assembly.
    HandleMessage,
    /// Pass the block of samples on to the service.
    ForwardAudio,
    /// Arm the fallback flush for a local turn end.
    ArmFallback,
    /// Flush the text heard, the service having not closed the turn in time.
    FlushNow,
    /// End the session with this outcome.
    End(SessionOutcome),
}

/// The session's reaction to `event`: a closed or failed stream ends it as
/// `StreamClosed`, a gone audio or turn-end source ends it as `Done`, and
/// every other event is handled in place.
pub fn session_reaction(event: SessionEvent) -> (r: SessionReaction)
    ensures
        event == SessionEvent::StreamItem(true) ==> r == SessionReaction::HandleMessage,
        event == SessionEvent::StreamItem(false) ==> r == SessionReaction::End(SessionOutcome::StreamClosed),
        event == SessionEvent::AudioItem(true) ==> r == SessionReaction::ForwardAudio,
        event == SessionEvent::AudioItem(false) ==> r == SessionReaction::End(SessionOutcome::Done),
        event == SessionEvent::TurnEndItem(true) ==> r == SessionReaction::ArmFallback,
        event == SessionEvent::TurnEndItem(false) ==> r == SessionReaction::End(SessionOutcome::Done),
        event == SessionEvent::FlushDue ==> r == SessionReaction::FlushNow,
{
    match event {
        SessionEvent::StreamItem(true) => SessionReaction::HandleMessage,
        SessionEvent::StreamItem(false) => SessionReaction::End(SessionOutcome::StreamClosed),
        SessionEvent::AudioItem(true) => SessionReaction::ForwardAudio,
        SessionEvent::AudioItem(false) => SessionReaction::End(SessionOutcome::Done),
        SessionEvent::TurnEndItem(true) => SessionReaction::ArmFallback,
        SessionEvent::TurnEndItem(false) => SessionReaction::End(SessionOutcome::Done),
        SessionEvent::FlushDue => SessionReaction::FlushNow,
    }
}

/// After a session: stop once the audio source is done, otherwise reconnect
/// at once.
pub fn after_session(outcome: SessionOutcome) -> (r: SupervisorAction)
    ensures
        outcome == SessionOutcome::Done ==> r == SupervisorAction::Stop,
        outcome == SessionOutcome::StreamClosed ==> r == SupervisorAction::Reconnect,
{
    match outcome {
        SessionOutcome::Done => SupervisorAction::Stop,
        SessionOutcome::StreamClosed => SupervisorAction::Reconnect,
    }
}

/// After a failed connection attempt: try again `RECONNECT_DELAY_MS` later.
pub fn after_connect_error() -> (r: SupervisorAction)
    ensures
        r == SupervisorAction::RetryAfterMs(RECONNECT_DELAY_MS),
{
    SupervisorAction::RetryAfterMs(RECONNECT_DELAY_MS)
}

} // verus!
