use interview_copilot::audio::hotkey::new_pause_flag;
use interview_copilot::config::transcript::PATH;
use interview_copilot::text::{decimal_string, trimmed};
use interview_copilot::transcript::{new_live_transcript, LineKind, TranscriptLine};

#[test]
fn labels_per_kind() {
    assert_eq!(LineKind::User.label(), "[User]");
    assert_eq!(LineKind::Interviewer.label(), "[Interviewer]");
    assert_eq!(LineKind::Ai.label(), "[AI]");
}

#[test]
fn lines_are_trimmed_and_rendered() {
    let line = TranscriptLine::new(LineKind::User, "  Hello from tests \n");
    assert_eq!(line.text, "Hello from tests");
    assert_eq!(line.render(), "[User]: Hello from tests");
    assert_eq!(line.file_line(), "[User]: Hello from tests\n");

    let ai = TranscriptLine::new(LineKind::Ai, "hello");
    assert_eq!(ai.file_line(), "[AI]: hello\n");

    let interviewer = TranscriptLine::new(LineKind::Interviewer, "  Hello world  ");
    assert_eq!(interviewer.file_line(), "[Interviewer]: Hello world\n");
}

#[test]
fn relogging_a_trimmed_line_is_stable() {
    let once = TranscriptLine::new(LineKind::Ai, "\t answer \u{2003}");
    let twice = TranscriptLine::new(LineKind::Ai, &once.text);
    assert_eq!(once.text, twice.text);
}

#[test]
fn live_transcript_starts_empty() {
    let live = new_live_transcript();
    assert!(live.lock().unwrap().is_empty());
    live.lock().unwrap().push(TranscriptLine::new(LineKind::User, "hi"));
    assert_eq!(live.lock().unwrap().len(), 1);
    let _ = new_pause_flag();
    assert_eq!(PATH, "transcript.txt");
}

#[test]
fn trimming_and_decimals() {
    assert_eq!(trimmed("  a b  "), "a b");
    assert_eq!(trimmed(""), "");
    assert_eq!(trimmed("\u{85}x\u{205f}"), "x");
    assert_eq!(decimal_string(0), "0");
    assert_eq!(decimal_string(10), "10");
    assert_eq!(decimal_string(u128::MAX), u128::MAX.to_string());
}
