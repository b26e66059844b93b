//! The prompt sent to the language model: a system prompt that carries the
//! retrieved candidate background, the replayed conversation, and the question.
use vstd::prelude::*;
use vstd::string::*;

use crate::text::{append_decimal, decimal, lemma_decimal_injective};

verus! {

/// One earlier exchange: an interviewer question and the answer suggested for it.
#[derive(Debug)]
pub struct HistoryTurn {
    pub question: String,
    pub answer: String,
}

/// Everything the language model receives for one question.
pub struct Prompt {
    pub system: String,
    pub history: Vec<HistoryTurn>,
    pub question: String,
}

/// Instructions before the rule on how to use the background.
pub const PROMPT_HEAD: &'static str = "You are a technical interview copilot. The interviewer just asked the \
         candidate a question in real time — you have seconds, not minutes, to help.\n\
         \n\
         Respond with 4-6 bullet points the candidate can glance at and say out loud. \
         Each bullet should be one full sentence — enough to convey the what AND the \
         why/how, not a bare keyword fragment. Don't pad artificially: if the question \
         genuinely only supports 3 solid points, give 3 rather than stretching to 6 — \
         but default to giving real, usable signal over a thin list.\n\
         \n\
         PRIMARY RULE: Always give a complete, technically strong, specific answer to \
         the question — the kind a senior engineer with real hands-on experience would \
         give — regardless of whether the exact topic is covered in the candidate's \
         background below. The background personalizes the answer; it never limits its \
         scope. If the question is about something the background doesn't mention at \
         all, still answer it fully and concretely using genuine technical knowledge — \
         never give a thin or evasive answer just because there's no personal anchor \
         for it.\n\
         \n\
         ";

/// Instructions between the background rule and the background itself.
pub const PROMPT_MIDDLE: &'static str = "\n\
         \n\
         Never invent a SPECIFIC fact that isn't in the background below — a company \
         name, a project name, a metric, a date. Speaking generally about real \
         technical practices is not invention and is always encouraged; inventing \
         personal specifics is never allowed.\n\
         \n\
         If earlier questions and answers from this same interview appear before this \
         message, build on them naturally — don't repeat a point you already made, and \
         reference something you said earlier if it's genuinely relevant.\n\
         \n\
         General rules:\n\
         - Lead with the most relevant point first.\n\
         - No preamble, no follow-up questions, no restating the question.\n\
         - Prefer concrete nouns (technology names, numbers, tradeoffs) over vague \
           adjectives.\n\
         ";

/// The background rule when nothing was retrieved.
pub const NO_MATCH_RULE: &'static str = "No specific candidate background matched this question — that's fine, answer \
         from general expertise as described in the PRIMARY RULE above.";

/// The background rule when entries were retrieved, before their count.
pub const ANCHOR_RULE_START: &'static str = "The candidate background below may relate directly or only loosely to \
             this question — use it as a real anchor wherever it fits, up to ";

/// The background rule when entries were retrieved, after their count.
pub const ANCHOR_RULE_END: &'static str = " \
             entries are provided so you can weave in more than one when relevant. If \
             an entry only loosely relates (e.g. the same language or ecosystem but a \
             different topic), use it as a natural bridge into the technical answer \
             rather than ignoring it — don't restrict the answer's scope to only what \
             these entries literally say.";

/// The rule on how to lean on the `n` retrieved background entries.
pub open spec fn spec_anchor_rule(n: nat) -> Seq<char> {
    if n == 0 {
        NO_MATCH_RULE@
    } else {
        ANCHOR_RULE_START@ + decimal(n) + ANCHOR_RULE_END@
    }
}

/// The no-match rule is given exactly when nothing was retrieved; otherwise
/// the rule names how many entries were retrieved, so that different counts
/// give different rules.
pub proof fn lemma_anchor_rule_counts(n: nat, m: nat)
    ensures
        (spec_anchor_rule(n) == NO_MATCH_RULE@) <==> n == 0,
        n >= 1 ==> spec_anchor_rule(n).subrange(
            ANCHOR_RULE_START@.len() as int,
            (ANCHOR_RULE_START@.len() + decimal(n).len()) as int,
        ) == decimal(n),
        n >= 1 && m >= 1 && n != m ==> spec_anchor_rule(n) != spec_anchor_rule(m),
{
    reveal_strlit("No specific candidate background matched this question — that's fine, answer \
         from general expertise as described in the PRIMARY RULE above.");
    reveal_strlit("The candidate background below may relate directly or only loosely to \
             this question — use it as a real anchor wherever it fits, up to ");
    if n >= 1 {
        let r = spec_anchor_rule(n);
        assert(r[0] == ANCHOR_RULE_START@[0]);
        assert(r[0] != NO_MATCH_RULE@[0]);
        assert(r.subrange(ANCHOR_RULE_START@.len() as int, (ANCHOR_RULE_START@.len() + decimal(n).len()) as int)
            =~= decimal(n));
    }
    if n >= 1 && m >= 1 && n != m {
        let rn = spec_anchor_rule(n);
        let rm = spec_anchor_rule(m);
        let a = ANCHOR_RULE_START@.len() as int;
        if rn == rm {
            if decimal(n).len() == decimal(m).len() {
                assert(rn.subrange(a, a + decimal(n).len()) =~= decimal(n));
                assert(rm.subrange(a, a + decimal(m).len()) =~= decimal(m));
                lemma_decimal_injective(n, m);
            } else {
                assert(rn.len() != rm.len());
            }
        }
    }
}

/// How background entry `i` (counted from zero) is listed: `"[{i + 1}] {payload}"`.
pub open spec fn spec_entry(i: nat, payload: Seq<char>) -> Seq<char> {
    "["@ + decimal(i + 1) + "] "@ + payload
}

/// The numbered entries, separated by blank lines.
pub open spec fn spec_entries(payloads: Seq<Seq<char>>) -> Seq<char>
    decreases payloads.len(),
{
    if payloads.len() == 0 {
        Seq::empty()
    } else if payloads.len() == 1 {
        spec_entry(0, payloads[0])
    } else {
        spec_entries(payloads.drop_last()) + "\n\n"@ + spec_entry(
            (payloads.len() - 1) as nat,
            payloads.last(),
        )
    }
}

/// The background section closing the system prompt; empty without entries.
pub open spec fn spec_context_section(payloads: Seq<Seq<char>>) -> Seq<char> {
    if payloads.len() == 0 {
        Seq::empty()
    } else {
        "\nCandidate background (most relevant first):\n"@ + spec_entries(payloads) + "\n"@
    }
}

/// The whole system prompt for the retrieved background `payloads`.
pub open spec fn spec_system_prompt(payloads: Seq<Seq<char>>) -> Seq<char> {
    PROMPT_HEAD@ + spec_anchor_rule(payloads.len()) + PROMPT_MIDDLE@ + spec_context_section(
        payloads,
    )
}

/// `part` stands in `s` starting at position `k`.
pub open spec fn occurs_at(s: Seq<char>, part: Seq<char>, k: int) -> bool {
    &&& 0 <= k
    &&& k + part.len() <= s.len()
    &&& s.subrange(k, k + part.len()) == part
}

proof fn lemma_occurs_in_concat(a: Seq<char>, s: Seq<char>, b: Seq<char>, part: Seq<char>, k: int)
    requires
        occurs_at(s, part, k),
    ensures
        occurs_at(a + s + b, part, a.len() + k),
{
    assert((a + s + b).subrange(a.len() + k, a.len() + k + part.len()) =~= s.subrange(k, k + part.len()));
}

proof fn lemma_entries_list_each(payloads: Seq<Seq<char>>, i: nat) -> (k: int)
    requires
        i < payloads.len(),
    ensures
        occurs_at(spec_entries(payloads), "["@ + decimal(i + 1) + "] "@ + payloads[i as int], k),
    decreases payloads.len(),
{
    let part = "["@ + decimal(i + 1) + "] "@ + payloads[i as int];
    let n = payloads.len();
    if n == 1 {
        assert(spec_entries(payloads).subrange(0, part.len() as int) =~= part);
        0
    } else if i == n - 1 {
        let before = spec_entries(payloads.drop_last());
        reveal_strlit("\n\n");
        assert(payloads.last() == payloads[i as int]);
        let k: int = before.len() as int + 2;
        assert(spec_entries(payloads).subrange(k, k + part.len()) =~= part);
        k
    } else {
        let k = lemma_entries_list_each(payloads.drop_last(), i);
        assert(payloads.drop_last()[i as int] == payloads[i as int]);
        let before = spec_entries(payloads.drop_last());
        assert(spec_entries(payloads).subrange(k, k + part.len()) =~= before.subrange(k, k + part.len()));
        k
    }
}

/// The system prompt lists every retrieved entry, numbered from one in the
/// order given: for each `i`, `"[{i + 1}] {payloads[i]}"` stands in it at the
/// returned position.
pub proof fn lemma_prompt_lists_every_entry(payloads: Seq<Seq<char>>, i: nat) -> (k: int)
    requires
        i < payloads.len(),
    ensures
        occurs_at(spec_system_prompt(payloads), "["@ + decimal(i + 1) + "] "@ + payloads[i as int], k),
{
    let part = "["@ + decimal(i + 1) + "] "@ + payloads[i as int];
    let k0 = lemma_entries_list_each(payloads, i);
    let head = PROMPT_HEAD@ + spec_anchor_rule(payloads.len()) + PROMPT_MIDDLE@
        + "\nCandidate background (most relevant first):\n"@;
    lemma_occurs_in_concat(head, spec_entries(payloads), "\n"@, part, k0);
    assert(spec_system_prompt(payloads) =~= head + spec_entries(payloads) + "\n"@);
    head.len() + k0
}

/// The views of a sequence of strings.
pub open spec fn string_views(v: Seq<String>) -> Seq<Seq<char>> {
    v.map_values(|x: String| x@)
}

/// The rule on how to use the retrieved background.
pub fn anchor_rule(context: &[String]) -> (r: String)
    ensures
        r@ == spec_anchor_rule(context@.len()),
{
    let mut s = String::new();
    if context.len() == 0 {
        s.append(NO_MATCH_RULE);
    } else {
        s.append(ANCHOR_RULE_START);
        append_decimal(&mut s, context.len() as u128);
        s.append(ANCHOR_RULE_END);
    }
    assert(s@ =~= spec_anchor_rule(context@.len()));
    s
}

/// The numbered background entries, ending the system prompt.
pub fn format_context_section(context: &[String]) -> (r: String)
    ensures
        r@ == spec_context_section(string_views(context@)),
{
    let mut s = String::new();
    if context.len() == 0 {
        assert(s@ =~= spec_context_section(string_views(context@)));
        return s;
    }
    let ghost payloads = string_views(context@);
    let mut entries = String::new();
    let n = context.len();
    for i in 0..n
        invariant
            n == context@.len(),
            payloads == string_views(context@),
            entries@ == spec_entries(payloads.take(i as int)),
    {
        let ghost before = entries@;
        assert(payloads.take(i + 1).drop_last() =~= payloads.take(i as int));
        assert(payloads.take(i + 1).last() == context@[i as int]@);
        if i > 0 {
            entries.append("\n\n");
        }
        entries.append("[");
        append_decimal(&mut entries, (i + 1) as u128);
        entries.append("] ");
        entries.append(context[i].as_str());
        proof {
            if i == 0 {
                assert(entries@ =~= spec_entry(0, payloads[0]));
            } else {
                assert(entries@ =~= before + "\n\n"@ + spec_entry(i as nat, payloads[i as int]));
            }
        }
    }
    assert(payloads.take(n as int) =~= payloads);
    s.append("\nCandidate background (most relevant first):\n");
    s.append(entries.as_str());
    s.append("\n");
    assert(s@ =~= spec_context_section(payloads));
    s
}

/// The system prompt for the retrieved background `context`, most relevant first.
pub fn build_system_prompt(context: &[String]) -> (r: String)
    ensures
        r@ == spec_system_prompt(string_views(context@)),
{
    let anchor = anchor_rule(context);
    let section = format_context_section(context);
    let mut s = String::new();
    s.append(PROMPT_HEAD);
    s.append(anchor.as_str());
    s.append(PROMPT_MIDDLE);
    s.append(section.as_str());
    assert(s@ =~= spec_system_prompt(string_views(context@)));
    s
}

/// A copy of each turn.
pub fn copy_turns(turns: &[HistoryTurn]) -> (r: Vec<HistoryTurn>)
    ensures
        r@ == turns@,
{
    let mut r: Vec<HistoryTurn> = Vec::new();
    for i in 0..turns.len()
        invariant
            r@ == turns@.take(i as int),
    {
        let t = &turns[i];
        r.push(HistoryTurn { question: t.question.clone(), answer: t.answer.clone() });
        assert(r@ =~= turns@.take(i + 1));
    }
    assert(r@ =~= turns@);
    r
}

/// The prompt for `question`, given the retrieved background and the earlier
/// exchanges of this interview, oldest first.
pub fn build(context: &[String], question: &str, history: &[HistoryTurn]) -> (r: Prompt)
    ensures
        r.system@ == spec_system_prompt(string_views(context@)),
        r.history@ == history@,
        r.question@ == question@,
{
    Prompt {
        system: build_system_prompt(context),
        history: copy_turns(history),
        question: String::from_str(question),
    }
}

} // verus!
