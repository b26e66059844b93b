use interview_copilot::audio::Speaker;
use interview_copilot::stt::deepgram::{
    accumulate, after_connect_error, after_session, encode_samples, flush_turn, results_event, session_reaction,
    DgAlternative, DgChannel, DgResponse, ResultsEvent, SessionEvent, SessionOutcome, SessionReaction,
    SupervisorAction, TurnAssembly,
};
use interview_copilot::stt::{has_content, line_kind_for, TurnComplete};
use interview_copilot::transcript::LineKind;

#[test]
fn line_kind_for_maps_each_speaker() {
    assert_eq!(line_kind_for(Speaker::User), LineKind::User);
    assert_eq!(line_kind_for(Speaker::System), LineKind::Interviewer);
}

#[test]
fn blank_turns_are_not_forwarded() {
    let turn = |text: &str| TurnComplete { speaker: Speaker::System, text: text.to_string() };
    assert!(has_content(&turn("  Hello world  ")));
    assert!(!has_content(&turn("")));
    assert!(!has_content(&turn(" \t\n ")));
    assert!(!has_content(&turn("\u{3000}\u{a0}")));
}

#[test]
fn samples_encode_as_little_endian_pcm() {
    assert_eq!(encode_samples(&[]), Vec::<u8>::new());
    assert_eq!(encode_samples(&[1, -1, 256, i16::MIN, i16::MAX]), vec![
        1, 0, 255, 255, 0, 1, 0, 128, 255, 127
    ]);
    let samples = [1234i16, -4321, 0, 77];
    let expected: Vec<u8> = samples.iter().flat_map(|s| s.to_le_bytes()).collect();
    assert_eq!(encode_samples(&samples), expected);
}

fn response(kind: &str, is_final: Option<bool>, speech_final: Option<bool>, texts: Option<Vec<&str>>) -> DgResponse {
    DgResponse {
        kind: kind.to_string(),
        is_final,
        speech_final,
        channel: texts.map(|ts| DgChannel {
            alternatives: ts.into_iter().map(|t| DgAlternative { transcript: t.to_string() }).collect(),
        }),
    }
}

#[test]
fn only_results_messages_count() {
    assert!(results_event(response("Metadata", Some(true), Some(true), Some(vec!["hi"]))).is_none());
    assert!(results_event(response("SpeechStarted", None, None, None)).is_none());
}

#[test]
fn final_results_carry_their_first_transcript() {
    let e = results_event(response("Results", Some(true), Some(false), Some(vec!["hello there", "hello bear"]))).unwrap();
    assert_eq!(e.fragment.as_deref(), Some("hello there"));
    assert!(!e.speech_final);

    let e = results_event(response("Results", Some(false), Some(true), Some(vec!["interim"]))).unwrap();
    assert_eq!(e.fragment, None);
    assert!(e.speech_final);

    let e = results_event(response("Results", Some(true), None, Some(vec![""]))).unwrap();
    assert_eq!(e.fragment, None);
    assert!(!e.speech_final);

    let e = results_event(response("Results", Some(true), Some(true), Some(vec![]))).unwrap();
    assert_eq!(e.fragment, None);

    let e = results_event(response("Results", None, None, None)).unwrap();
    assert_eq!(e.fragment, None);
}

#[test]
fn fragments_are_joined_by_single_spaces() {
    let mut acc = String::new();
    accumulate(&mut acc, "");
    assert_eq!(acc, "");
    accumulate(&mut acc, "What is");
    accumulate(&mut acc, "");
    accumulate(&mut acc, "ownership in Rust?");
    assert_eq!(acc, "What is ownership in Rust?");
}

#[test]
fn flush_takes_text_once() {
    let mut acc = "tell me about yourself".to_string();
    let turn = flush_turn(&mut acc, Speaker::System).unwrap();
    assert_eq!(turn.speaker, Speaker::System);
    assert_eq!(turn.text, "tell me about yourself");
    assert_eq!(acc, "");
    assert!(flush_turn(&mut acc, Speaker::System).is_none());
}

fn event(fragment: Option<&str>, speech_final: bool) -> ResultsEvent {
    ResultsEvent { fragment: fragment.map(str::to_string), speech_final }
}

#[test]
fn speech_final_flushes_and_cancels_fallback() {
    let mut a = TurnAssembly::new();
    assert!(a.on_results(event(Some("Hello"), false), Speaker::User).is_none());
    a.on_local_turn_end(1_000);
    assert_eq!(a.flush_deadline(), Some(1_500));
    let t = a.on_results(event(Some("world"), true), Speaker::User).unwrap();
    assert_eq!(t.text, "Hello world");
    assert_eq!(a.flush_deadline(), None);
    assert!(a.on_results(event(None, true), Speaker::User).is_none());
}

#[test]
fn local_turn_end_does_not_postpone_deadline() {
    let mut a = TurnAssembly::new();
    a.on_local_turn_end(10);
    a.on_local_turn_end(400);
    assert_eq!(a.flush_deadline(), Some(510));
}

#[test]
fn fallback_flush_after_deadline() {
    let mut a = TurnAssembly::new();
    assert!(a.on_results(event(Some("Any questions"), false), Speaker::System).is_none());
    a.on_local_turn_end(0);
    let t = a.on_flush_timeout(Speaker::System).unwrap();
    assert_eq!(t.text, "Any questions");
    assert_eq!(t.speaker, Speaker::System);
    assert_eq!(a.flush_deadline(), None);
    assert!(a.on_flush_timeout(Speaker::System).is_none());
}

#[test]
fn reconnect_keeps_text_but_drops_deadline() {
    let mut a = TurnAssembly::new();
    a.on_results(event(Some("half a"), false), Speaker::User);
    a.on_local_turn_end(5);
    a.begin_session();
    assert_eq!(a.flush_deadline(), None);
    let t = a.on_results(event(Some("sentence"), true), Speaker::User).unwrap();
    assert_eq!(t.text, "half a sentence");
}

#[test]
fn supervisor_stops_reconnects_or_waits() {
    assert_eq!(after_session(SessionOutcome::Done), SupervisorAction::Stop);
    assert_eq!(after_session(SessionOutcome::StreamClosed), SupervisorAction::Reconnect);
    assert_eq!(after_connect_error(), SupervisorAction::RetryAfterMs(2000));
}

#[test]
fn fallback_deadline_holds_through_partial_results() {
    let mut a = TurnAssembly::new();
    a.on_results(event(Some("first"), false), Speaker::User);
    a.on_local_turn_end(1_000);
    assert_eq!(a.flush_deadline(), Some(1_500));
    assert!(a.on_results(event(Some("second"), false), Speaker::User).is_none());
    a.on_local_turn_end(1_200);
    assert!(a.on_results(event(None, false), Speaker::User).is_none());
    assert_eq!(a.flush_deadline(), Some(1_500));
    let turn = a.on_flush_timeout(Speaker::User).expect("text was heard");
    assert_eq!(turn.text, "first second");
    assert_eq!(a.flush_deadline(), None);
    assert!(a.on_flush_timeout(Speaker::User).is_none());
}

#[test]
fn session_reacts_to_each_event() {
    assert_eq!(session_reaction(SessionEvent::StreamItem(true)), SessionReaction::HandleMessage);
    assert_eq!(
        session_reaction(SessionEvent::StreamItem(false)),
        SessionReaction::End(SessionOutcome::StreamClosed)
    );
    assert_eq!(session_reaction(SessionEvent::AudioItem(true)), SessionReaction::ForwardAudio);
    assert_eq!(session_reaction(SessionEvent::AudioItem(false)), SessionReaction::End(SessionOutcome::Done));
    assert_eq!(session_reaction(SessionEvent::TurnEndItem(true)), SessionReaction::ArmFallback);
    assert_eq!(session_reaction(SessionEvent::TurnEndItem(false)), SessionReaction::End(SessionOutcome::Done));
    assert_eq!(session_reaction(SessionEvent::FlushDue), SessionReaction::FlushNow);
}
