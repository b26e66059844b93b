use interview_copilot::ai::dispatch::is_interviewer_question;
use interview_copilot::ai::embedder;
use interview_copilot::ai::llm::{
    build_request, extract_content, Choice, GroqLlm, LlmError, MessageContent, Response, MODEL,
};
use interview_copilot::ai::prompt::{
    anchor_rule, build, format_context_section, HistoryTurn, ANCHOR_RULE_END, ANCHOR_RULE_START,
    NO_MATCH_RULE, PROMPT_HEAD, PROMPT_MIDDLE,
};
use interview_copilot::ai::setup::{context_chunks, ARCH_001, PERF_002};
use interview_copilot::ai::vector_store::VectorStore;
use interview_copilot::ai::{chunk_context, chunk_id, truncate, SessionHistory};
use interview_copilot::audio::Speaker;
use interview_copilot::config::ai::MAX_HISTORY_TURNS;
use interview_copilot::stt::TurnComplete;

#[test]
fn is_interviewer_question_only_matches_system_speaker() {
    let user_turn = TurnComplete { speaker: Speaker::User, text: "Hello".to_string() };
    let system_turn = TurnComplete { speaker: Speaker::System, text: "What is Rust?".to_string() };

    assert!(!is_interviewer_question(&user_turn));
    assert!(is_interviewer_question(&system_turn));
}

#[test]
fn context_is_split_into_trimmed_non_blank_lines() {
    let ctx = "  I work at Caelum as a Full Stack Engineer  \n\n\tI built Nexus\r\n   \nDDD and hexagonal";
    assert_eq!(
        chunk_context(ctx),
        vec!["I work at Caelum as a Full Stack Engineer", "I built Nexus", "DDD and hexagonal"]
    );
    assert!(chunk_context("").is_empty());
    assert!(chunk_context("\n \n\t\n").is_empty());
    assert_eq!(chunk_context("one line"), vec!["one line"]);
    assert_eq!(chunk_context("trailing\n"), vec!["trailing"]);
}

#[test]
fn chunk_ids_are_zero_padded() {
    assert_eq!(chunk_id(0), "ctx-000");
    assert_eq!(chunk_id(7), "ctx-007");
    assert_eq!(chunk_id(42), "ctx-042");
    assert_eq!(chunk_id(999), "ctx-999");
    assert_eq!(chunk_id(1234), "ctx-1234");
}

#[test]
fn truncate_counts_characters() {
    assert_eq!(truncate("hello", 10), "hello");
    assert_eq!(truncate("hello", 5), "hello");
    assert_eq!(truncate("hello", 2), "he");
    assert_eq!(truncate("añoñé", 3), "año");
    assert_eq!(truncate("abc", 0), "");
}

fn turn(q: &str, a: &str) -> HistoryTurn {
    HistoryTurn { question: q.to_string(), answer: a.to_string() }
}

#[test]
fn history_replays_last_turns_in_order() {
    let mut h = SessionHistory::new();
    assert!(h.recent_history().is_empty());
    for i in 0..(MAX_HISTORY_TURNS + 2) {
        h.record_turn(&format!("q{i}"), &format!("a{i}"));
    }
    let recent = h.recent_history();
    assert_eq!(recent.len(), MAX_HISTORY_TURNS);
    let qs: Vec<&str> = recent.iter().map(|t| t.question.as_str()).collect();
    assert_eq!(qs, vec!["q2", "q3", "q4", "q5", "q6"]);
    assert_eq!(recent.last().unwrap().answer, "a6");
}

#[test]
fn history_below_bound_is_replayed_whole() {
    let mut h = SessionHistory::new();
    h.record_turn("first?", "one");
    h.record_turn("second?", "two");
    let recent = h.recent_history();
    assert_eq!(recent.len(), 2);
    assert_eq!(recent[0].question, "first?");
    assert_eq!(recent[1].answer, "two");
}

#[test]
fn anchor_rule_depends_on_retrieved_count() {
    assert_eq!(anchor_rule(&[]), NO_MATCH_RULE);
    let ctx = vec!["a".to_string(), "b".to_string(), "c".to_string()];
    assert_eq!(anchor_rule(&ctx), format!("{ANCHOR_RULE_START}3{ANCHOR_RULE_END}"));
    assert!(anchor_rule(&ctx).contains("up to 3 entries are provided"));
}

#[test]
fn context_section_numbers_entries() {
    assert_eq!(format_context_section(&[]), "");
    let ctx = vec!["Built Nexus with Go".to_string(), "Uses DDD".to_string()];
    assert_eq!(
        format_context_section(&ctx),
        "\nCandidate background (most relevant first):\n[1] Built Nexus with Go\n\n[2] Uses DDD\n"
    );
}

#[test]
fn prompt_assembles_system_history_and_question() {
    let ctx = vec!["Built Nexus with Go".to_string()];
    let history = vec![turn("Q1", "A1")];
    let p = build(&ctx, "What is CQRS?", &history);
    assert_eq!(p.question, "What is CQRS?");
    assert_eq!(p.history.len(), 1);
    assert_eq!(p.history[0].question, "Q1");
    assert_eq!(p.history[0].answer, "A1");
    assert!(p.system.starts_with(PROMPT_HEAD));
    assert!(p.system.contains(PROMPT_MIDDLE));
    assert!(p.system.starts_with("You are a technical interview copilot."));
    assert!(p.system.ends_with("[1] Built Nexus with Go\n"));
    assert!(p.system.contains("PRIMARY RULE"));
    assert!(p.system.contains("- Prefer concrete nouns (technology names, numbers, tradeoffs) over vague adjectives.\n"));

    let empty = build(&[], "Hi", &[]);
    assert!(empty.system.ends_with("over vague adjectives.\n"));
    assert!(empty.system.contains(NO_MATCH_RULE));
}

#[test]
fn chat_request_replays_history_as_turns() {
    let p = build(&[], "current?", &[turn("Q1", "A1"), turn("Q2", "A2")]);
    let system = p.system.clone();
    let req = build_request(p);
    assert_eq!(req.model, MODEL);
    let msgs: Vec<(&str, &str)> = req.messages.iter().map(|m| (m.role, m.content.as_str())).collect();
    assert_eq!(msgs, vec![
        ("system", system.as_str()),
        ("user", "Q1"),
        ("assistant", "A1"),
        ("user", "Q2"),
        ("assistant", "A2"),
        ("user", "current?"),
    ]);
}

#[test]
fn client_needs_a_key() {
    assert!(matches!(GroqLlm::new(None), Err(LlmError::MissingApiKey)));
    let c = GroqLlm::new(Some("SECRET-REDACTED".to_string())).ok().unwrap();
    assert_eq!(c.api_key(), "SECRET-REDACTED");
    assert_eq!(LlmError::MissingApiKey.message(), "GROQ_API_KEY env var not set");
}

#[test]
fn reply_content_is_first_choice() {
    let reply = |cs: &[&str]| Response {
        choices: cs.iter().map(|c| Choice { message: MessageContent { content: c.to_string() } }).collect(),
    };
    assert_eq!(extract_content(reply(&["- point one", "other"])).ok(), Some("- point one".to_string()));
    assert!(matches!(extract_content(reply(&[])), Err(LlmError::NoResponse)));
}

#[test]
fn embedding_request_keeps_texts_in_order() {
    let req = embedder::build_request(&["alpha", "beta"]);
    assert_eq!(req.model, "voyage-3-lite");
    assert_eq!(req.input, vec!["alpha".to_string(), "beta".to_string()]);
    assert!(embedder::build_request(&[]).input.is_empty());
}

#[test]
fn builtin_knowledge_base() {
    let chunks = context_chunks();
    assert_eq!(chunks.len(), 15);
    assert_eq!(chunks[0].0, "arch-001");
    assert_eq!(chunks[14].0, "perf-002");
    assert!(chunks.iter().all(|(_, text)| !text.is_empty()));
}

#[test]
fn vector_store_upsert_replaces_entry_with_same_id() {
    let mut store: VectorStore<Vec<u32>> = VectorStore::new();
    assert_eq!(store.len(), 0);
    store.upsert("a", vec![1], "first");
    store.upsert("b", vec![2], "second");
    store.upsert("a", vec![3], "third");
    assert_eq!(store.len(), 2);
    let entries = store.entries();
    assert_eq!(entries[0].id, "a");
    assert_eq!(entries[0].vector, vec![3]);
    assert_eq!(entries[0].payload, "third");
    assert_eq!(entries[1].id, "b");
    assert_eq!(entries[1].vector, vec![2]);
    assert_eq!(entries[1].payload, "second");
}

#[test]
fn builtin_entries_carry_their_texts() {
    let chunks = context_chunks();
    assert_eq!(chunks[0].1, ARCH_001);
    assert_eq!(chunks[14].1, PERF_002);
    assert!(ARCH_001.starts_with("La arquitectura de microservicios"));
}

#[test]
fn missing_reply_message() {
    assert_eq!(LlmError::NoResponse.message(), "Groq no devolvió ninguna respuesta");
}
