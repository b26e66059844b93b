//! Retrieval-augmented answering: splitting the candidate's background into
//! entries, the prompt, the language-model and embedding requests, and the
//! conversation history kept between questions.
pub mod dispatch;
pub mod embedder;
pub mod llm;
pub mod prompt;
pub mod setup;
pub mod vector_store;

use vstd::prelude::*;
use vstd::string::*;

use crate::config::ai::MAX_HISTORY_TURNS;
use crate::text::{append_zero_padded3, lemma_zero_padded3_injective, content_lines, non_blank_lines, prefix_chars, views, zero_padded};
use prompt::HistoryTurn;

verus! {

/// The background entries of a free-text context: one per non-blank line,
/// trimmed.
pub fn chunk_context(context: &str) -> (r: Vec<String>)
    ensures
        views(r@) == content_lines(context@),
{
    non_blank_lines(context)
}

/// The identifier of background entry `i`: `"ctx-"` and `i` padded to three digits.
pub open spec fn spec_chunk_id(i: nat) -> Seq<char> {
    "ctx-"@ + zero_padded(i, 3)
}

/// Distinct entries get distinct identifiers, so storing entries by
/// identifier never merges two entries of one context.
pub proof fn lemma_chunk_ids_distinct(i: nat, j: nat)
    requires
        i != j,
    ensures
        spec_chunk_id(i) != spec_chunk_id(j),
{
    if spec_chunk_id(i) == spec_chunk_id(j) {
        reveal_strlit("ctx-");
        assert(spec_chunk_id(i).skip(4) =~= zero_padded(i, 3));
        assert(spec_chunk_id(j).skip(4) =~= zero_padded(j, 3));
        lemma_zero_padded3_injective(i, j);
    }
}

/// The identifier of background entry `i`, as `format!("ctx-{:03}", i)`.
pub fn chunk_id(i: usize) -> (r: String)
    ensures
        r@ == spec_chunk_id(i as nat),
{
    let mut s = String::from_str("ctx-");
    append_zero_padded3(&mut s, i as u128);
    s
}

/// The first `max` characters of `s` (all of `s` when shorter).
pub fn truncate(s: &str, max: usize) -> (r: &str)
    ensures
        r@ == prefix_chars(s@, max as nat),
{
    let n = s.unicode_len();
    if n > max {
        s.substring_char(0, max)
    } else {
        assert(s@.subrange(0, n as int) =~= s@);
        s.substring_char(0, n)
    }
}

/// The exchanges replayed to the model: the last `MAX_HISTORY_TURNS` of
/// `turns`, oldest first.
pub open spec fn recent_of(turns: Seq<HistoryTurn>) -> Seq<HistoryTurn> {
    if turns.len() > MAX_HISTORY_TURNS {
        turns.skip(turns.len() - MAX_HISTORY_TURNS)
    } else {
        turns
    }
}

/// The replayed history holds the last `min(len, MAX_HISTORY_TURNS)` exchanges
/// of the session, in the order they happened.
pub proof fn lemma_recent_is_bounded_tail(turns: Seq<HistoryTurn>)
    ensures
        recent_of(turns).len() <= MAX_HISTORY_TURNS,
        recent_of(turns).len() == if turns.len() < MAX_HISTORY_TURNS {
            turns.len()
        } else {
            MAX_HISTORY_TURNS as nat
        },
        forall|i: int|
            0 <= i < recent_of(turns).len() ==> #[trigger] recent_of(turns)[i] == turns[turns.len()
                - recent_of(turns).len() + i],
{
}

/// Recording an exchange slides the replayed window by one: the new exchange
/// comes last, and the oldest one drops out once the window is full.
pub proof fn lemma_recent_after_record(turns: Seq<HistoryTurn>, turn: HistoryTurn)
    ensures
        recent_of(turns.push(turn)).last() == turn,
        recent_of(turns.push(turn)).drop_last() == if turns.len() >= MAX_HISTORY_TURNS {
            recent_of(turns).drop_first()
        } else {
            recent_of(turns)
        },
{
    let r = recent_of(turns.push(turn));
    if turns.len() >= MAX_HISTORY_TURNS {
        assert(r.drop_last() =~= recent_of(turns).drop_first());
    } else {
        assert(r.drop_last() =~= recent_of(turns));
    }
}

/// The exchanges of one interview session, oldest first.
pub struct SessionHistory {
    turns: Vec<HistoryTurn>,
}

impl SessionHistory {
    /// Every recorded exchange, oldest first.
    pub closed spec fn turns(&self) -> Seq<HistoryTurn> {
        self.turns@
    }

    /// A session with no exchanges yet.
    pub fn new() -> (r: Self)
        ensures
            r.turns() == Seq::<HistoryTurn>::empty(),
    {
        SessionHistory { turns: Vec::new() }
    }

    /// The most recent exchanges, at most `MAX_HISTORY_TURNS`, oldest first.
    pub fn recent_history(&self) -> (r: Vec<HistoryTurn>)
        ensures
            r@ == recent_of(self.turns()),
    {
        let len = self.turns.len();
        let start = if len > MAX_HISTORY_TURNS {
            len - MAX_HISTORY_TURNS
        } else {
            0
        };
        let mut r: Vec<HistoryTurn> = Vec::new();
        let mut i = start;
        while i < len
            invariant
                start <= i <= len,
                len == self.turns@.len(),
                r@ == self.turns@.subrange(start as int, i as int),
            decreases len - i,
        {
            let t = &self.turns[i];
            r.push(HistoryTurn { question: t.question.clone(), answer: t.answer.clone() });
            assert(r@ =~= self.turns@.subrange(start as int, i + 1));
            i = i + 1;
        }
        assert(r@ =~= recent_of(self.turns()));
        r
    }

    /// Records the answer suggested for `question` as the newest exchange.
    pub fn record_turn(&mut self, question: &str, answer: &str)
        ensures
            final(self).turns().len() == old(self).turns().len() + 1,
            final(self).turns().drop_last() == old(self).turns(),
            final(self).turns().last().question@ == question@,
            final(self).turns().last().answer@ == answer@,
    {
        self.turns.push(
            HistoryTurn { question: String::from_str(question), answer: String::from_str(answer) },
        );
        assert(self.turns@.drop_last() =~= old(self).turns@);
    }
}

} // verus!
