use interview_copilot::audio::hotkey::{
    is_new_press, is_paused, new_pause_flag, pause_label, pause_label_for, toggle_pause,
};
use interview_copilot::audio::router::{insert_chronologically, SpeechForwarder};
use interview_copilot::audio::vad::{
    speech_continued, speech_in_hangover, transition, SpeechTurn, TurnState, VadChannel,
    VoiceDetector,
};
use interview_copilot::audio::wasapi::AudioSource;
use interview_copilot::audio::wav_writer::{raw_capture_path, turn_wav_path};
use interview_copilot::audio::{AudioFormat, Speaker};
use interview_copilot::config::vad::{CHUNK_SAMPLES, HANGOVER_CHUNKS, MIN_SPEECH_CHUNKS};
use interview_copilot::overlay::{
    line_color, preview_placeholder, visibility_label, SessionGate, PREVIEW_PLACEHOLDER,
};
use interview_copilot::stt::speaker_label;
use interview_copilot::transcript::LineKind;
use interview_copilot::stt::SttSender;
use std::sync::atomic::{AtomicUsize, Ordering};
use std::sync::{Arc, Mutex};
use std::collections::VecDeque;

fn make_turn(start_ms: u128) -> SpeechTurn {
    SpeechTurn {
        speaker: Speaker::User,
        audio: vec![1, 2, 3],
        start_ms,
        end_ms: start_ms + 5,
    }
}

#[test]
fn insert_chronologically_keeps_turns_sorted_by_start_time() {
    let mut conversation = vec![make_turn(20), make_turn(40)];

    insert_chronologically(&mut conversation, make_turn(30));

    let starts: Vec<u128> = conversation.iter().map(|turn| turn.start_ms).collect();
    assert_eq!(starts, vec![20, 30, 40]);
}

#[test]
fn speaker_label_uses_expected_labels() {
    assert_eq!(speaker_label(&Speaker::User), "[User]");
    assert_eq!(speaker_label(&Speaker::System), "[Interviewer]");
}

#[test]
fn pause_label_reflects_flag_state() {
    let flag = new_pause_flag();
    assert_eq!(pause_label(&flag), "Pause");

    toggle_pause(&flag);
    assert_eq!(pause_label(&flag), "Resume");
}

#[test]
fn insert_chronologically_places_equal_start_after_existing() {
    let mut conversation = vec![make_turn(10), make_turn(20), make_turn(30)];
    let mut late = make_turn(20);
    late.end_ms = 99;
    insert_chronologically(&mut conversation, late);
    let ends: Vec<u128> = conversation.iter().map(|t| t.end_ms).collect();
    assert_eq!(ends, vec![15, 25, 99, 35]);
}

#[test]
fn insert_chronologically_into_empty_and_at_ends() {
    let mut conversation = Vec::new();
    insert_chronologically(&mut conversation, make_turn(50));
    insert_chronologically(&mut conversation, make_turn(10));
    insert_chronologically(&mut conversation, make_turn(90));
    let starts: Vec<u128> = conversation.iter().map(|t| t.start_ms).collect();
    assert_eq!(starts, vec![10, 50, 90]);
}

#[test]
fn speaker_names() {
    assert_eq!(Speaker::User.label(), "user");
    assert_eq!(Speaker::System.label(), "system");
    assert_eq!(Speaker::User.display_name(), "USER  ");
    assert_eq!(Speaker::System.display_name(), "SYSTEM");
}

#[test]
fn audio_format_description() {
    let f = AudioFormat { sample_rate: 48_000, channels: 2 };
    assert_eq!(f.describe(), "48000Hz 2ch");
    let g = AudioFormat { sample_rate: 0, channels: 1 };
    assert_eq!(g.describe(), "0Hz 1ch");
}

#[test]
fn capture_sources_map_to_speakers() {
    assert_eq!(AudioSource::Microphone.speaker(), Speaker::User);
    assert_eq!(AudioSource::SystemLoopback.speaker(), Speaker::System);
}

#[test]
fn wav_file_names() {
    assert_eq!(turn_wav_path(Speaker::User, 1725029869123), "turn_user_1725029869123.wav");
    assert_eq!(turn_wav_path(Speaker::System, 0), "turn_system_0.wav");
    assert_eq!(raw_capture_path(Speaker::User), "raw_mic.wav");
    assert_eq!(raw_capture_path(Speaker::System), "raw_sys.wav");
}

#[test]
fn hotkey_toggles_on_press_edge_only() {
    assert!(is_new_press(false, true));
    assert!(!is_new_press(true, true));
    assert!(!is_new_press(false, false));
    assert!(!is_new_press(true, false));
}

#[test]
fn pause_flag_toggles_back_and_forth() {
    let flag = new_pause_flag();
    assert!(!is_paused(&flag));
    assert!(!toggle_pause(&flag));
    assert!(is_paused(&flag));
    assert!(toggle_pause(&flag));
    assert!(!is_paused(&flag));
    assert_eq!(pause_label_for(true), "Resume");
    assert_eq!(pause_label_for(false), "Pause");
}

// ── Turn detection ───────────────────────────────────────────────────────────

/// A detector that answers from a script and counts resets.
struct Scripted {
    answers: VecDeque<bool>,
    resets: Arc<AtomicUsize>,
}

impl Scripted {
    fn new(answers: &[bool]) -> Self {
        Scripted { answers: answers.iter().copied().collect(), resets: Arc::new(AtomicUsize::new(0)) }
    }
}

impl VoiceDetector for Scripted {
    fn is_speech(&mut self, chunk: &[i16]) -> bool {
        assert_eq!(chunk.len(), CHUNK_SAMPLES);
        self.answers.pop_front().unwrap_or(false)
    }

    fn reset(&mut self) {
        self.resets.fetch_add(1, Ordering::SeqCst);
    }
}

fn chunk(value: i16) -> Vec<i16> {
    vec![value; CHUNK_SAMPLES]
}

#[test]
fn transition_from_silence() {
    let (s, t) = transition(Speaker::User, TurnState::Silence, false, &chunk(1), 7);
    assert!(matches!(s, TurnState::Silence));
    assert!(t.is_none());
    let (s, t) = transition(Speaker::User, TurnState::Silence, true, &chunk(1), 7);
    assert!(t.is_none());
    match s {
        TurnState::Speech { chunk_count, audio, start_ms, hangover_left } => {
            assert_eq!(chunk_count, 1);
            assert_eq!(audio, chunk(1));
            assert_eq!(start_ms, 7);
            assert_eq!(hangover_left, HANGOVER_CHUNKS);
        }
        TurnState::Silence => panic!("speech should start"),
    }
}

#[test]
fn speech_continues_and_hangs_over() {
    let s = speech_continued(2, [chunk(1), chunk(2)].concat(), 5, &chunk(3));
    match s {
        TurnState::Speech { chunk_count, audio, start_ms, hangover_left } => {
            assert_eq!(chunk_count, 3);
            assert_eq!(audio.len(), 3 * CHUNK_SAMPLES);
            assert_eq!(start_ms, 5);
            assert_eq!(hangover_left, HANGOVER_CHUNKS);
        }
        TurnState::Silence => panic!(),
    }
    let s = speech_in_hangover(3, [chunk(1), chunk(2), chunk(3)].concat(), 5, 4, &chunk(0));
    match s {
        TurnState::Speech { chunk_count, audio, hangover_left, .. } => {
            assert_eq!(chunk_count, 3);
            assert_eq!(audio.len(), 4 * CHUNK_SAMPLES);
            assert_eq!(hangover_left, 3);
        }
        TurnState::Silence => panic!(),
    }
}

#[test]
fn run_ends_with_turn_or_noise_burst() {
    let long = TurnState::Speech {
        chunk_count: MIN_SPEECH_CHUNKS,
        audio: vec![9; MIN_SPEECH_CHUNKS * CHUNK_SAMPLES],
        start_ms: 100,
        hangover_left: 1,
    };
    let (s, t) = transition(Speaker::System, long, false, &chunk(0), 900);
    assert!(matches!(s, TurnState::Silence));
    let t = t.expect("a long enough run is a turn");
    assert_eq!(t.speaker, Speaker::System);
    assert_eq!(t.audio.len(), (MIN_SPEECH_CHUNKS + 1) * CHUNK_SAMPLES);
    assert_eq!(t.start_ms, 100);
    assert_eq!(t.end_ms, 900);

    let short = TurnState::Speech {
        chunk_count: MIN_SPEECH_CHUNKS - 1,
        audio: vec![9; (MIN_SPEECH_CHUNKS - 1) * CHUNK_SAMPLES],
        start_ms: 100,
        hangover_left: 1,
    };
    let (s, t) = transition(Speaker::System, short, false, &chunk(0), 900);
    assert!(matches!(s, TurnState::Silence));
    assert!(t.is_none());
}

#[test]
fn channel_buffers_until_a_full_chunk() {
    let mut ch = VadChannel::new(Speaker::User, Scripted::new(&[]));
    assert!(ch.push(&vec![1; CHUNK_SAMPLES - 1]).is_empty());
    assert!(ch.push(&[]).is_empty());
}

#[test]
fn channel_emits_turn_after_hangover() {
    // 3 speech chunks, then exactly HANGOVER_CHUNKS silent ones end the run.
    let mut script = vec![true; MIN_SPEECH_CHUNKS];
    script.extend(vec![false; HANGOVER_CHUNKS]);
    let detector = Scripted::new(&script);
    let resets = detector.resets.clone();
    let mut ch = VadChannel::new(Speaker::System, detector);
    let samples = vec![3i16; (MIN_SPEECH_CHUNKS + HANGOVER_CHUNKS) * CHUNK_SAMPLES - 1];
    assert!(ch.push(&samples).is_empty());
    assert_eq!(resets.load(Ordering::SeqCst), 0);
    let turns = ch.push(&[3]);
    assert_eq!(resets.load(Ordering::SeqCst), 1);
    assert_eq!(turns.len(), 1);
    let turn = &turns[0];
    assert_eq!(turn.speaker, Speaker::System);
    assert_eq!(turn.audio.len(), (MIN_SPEECH_CHUNKS + HANGOVER_CHUNKS) * CHUNK_SAMPLES);
    assert!(turn.start_ms > 1_600_000_000_000, "start is a wall-clock time in ms");
    assert!(turn.end_ms >= turn.start_ms);
}

#[test]
fn channel_drops_noise_burst() {
    let mut script = vec![true; MIN_SPEECH_CHUNKS - 1];
    script.extend(vec![false; HANGOVER_CHUNKS]);
    let detector = Scripted::new(&script);
    let resets = detector.resets.clone();
    let mut ch = VadChannel::new(Speaker::User, detector);
    let samples = vec![3i16; (MIN_SPEECH_CHUNKS - 1 + HANGOVER_CHUNKS) * CHUNK_SAMPLES];
    assert!(ch.push(&samples).is_empty());
    assert_eq!(resets.load(Ordering::SeqCst), 1, "the detector is reset after a burst too");
}

#[test]
fn channel_keeps_running_one_chunk_before_hangover_ends() {
    let mut script = vec![true; MIN_SPEECH_CHUNKS];
    script.extend(vec![false; HANGOVER_CHUNKS - 1]);
    script.push(true);
    script.extend(vec![false; HANGOVER_CHUNKS]);
    let mut ch = VadChannel::new(Speaker::User, Scripted::new(&script));
    let n = MIN_SPEECH_CHUNKS + 2 * HANGOVER_CHUNKS;
    let turns = ch.push(&vec![1i16; n * CHUNK_SAMPLES]);
    assert_eq!(turns.len(), 1);
    assert_eq!(turns[0].audio.len(), n * CHUNK_SAMPLES);
}

/// Counts what is streamed to transcription.
struct Recorder {
    samples: Arc<AtomicUsize>,
    ends: Arc<AtomicUsize>,
}

impl SttSender for Recorder {
    fn send_audio(&mut self, samples: &[i16]) {
        self.samples.fetch_add(samples.len(), Ordering::SeqCst);
    }

    fn end_turn(&mut self) {
        self.ends.fetch_add(1, Ordering::SeqCst);
    }
}

#[test]
fn forwarder_streams_audio_and_signals_turn_ends() {
    let mut script = vec![true; MIN_SPEECH_CHUNKS];
    script.extend(vec![false; HANGOVER_CHUNKS]);
    let samples = Arc::new(AtomicUsize::new(0));
    let ends = Arc::new(AtomicUsize::new(0));
    let rec = Recorder { samples: samples.clone(), ends: ends.clone() };
    let mut fwd = SpeechForwarder::new(Speaker::User, Scripted::new(&script), rec);
    assert!(fwd.forward(&[]).is_empty());
    assert_eq!(samples.load(Ordering::SeqCst), 0);
    let n = (MIN_SPEECH_CHUNKS + HANGOVER_CHUNKS) * CHUNK_SAMPLES;
    let turns = fwd.forward(&vec![5i16; n]);
    assert_eq!(turns.len(), 1);
    assert_eq!(samples.load(Ordering::SeqCst), n);
    assert_eq!(ends.load(Ordering::SeqCst), 1);
}

/// A detector that answers from a script and writes down every request.
struct Logged {
    answers: VecDeque<bool>,
    log: Arc<Mutex<Vec<String>>>,
}

impl VoiceDetector for Logged {
    fn is_speech(&mut self, chunk: &[i16]) -> bool {
        self.log.lock().unwrap().push(format!("judge {} x{}", chunk[0], chunk.len()));
        self.answers.pop_front().unwrap_or(false)
    }

    fn reset(&mut self) {
        self.log.lock().unwrap().push("reset".to_string());
    }
}

/// A transcription sink that writes down every message.
struct Transcribed {
    log: Arc<Mutex<Vec<String>>>,
}

impl SttSender for Transcribed {
    fn send_audio(&mut self, samples: &[i16]) {
        self.log.lock().unwrap().push(format!("audio {}", samples.len()));
    }

    fn end_turn(&mut self) {
        self.log.lock().unwrap().push("end".to_string());
    }
}

#[test]
fn detector_judges_each_chunk_in_order_and_resets_after_a_run() {
    let mut script = vec![true];
    script.extend(vec![false; HANGOVER_CHUNKS]);
    let log = Arc::new(Mutex::new(Vec::new()));
    let det = Logged { answers: script.iter().copied().collect(), log: log.clone() };
    let mut ch = VadChannel::new(Speaker::System, det);
    let mut samples = Vec::new();
    for i in 0..(1 + HANGOVER_CHUNKS) {
        samples.extend(vec![i as i16; CHUNK_SAMPLES]);
    }
    samples.extend(vec![99i16; 10]);
    let turns = ch.push(&samples);
    assert!(turns.is_empty());
    let log = log.lock().unwrap();
    assert_eq!(log.len(), 2 + HANGOVER_CHUNKS);
    for i in 0..(1 + HANGOVER_CHUNKS) {
        assert_eq!(log[i], format!("judge {} x{}", i, CHUNK_SAMPLES));
    }
    assert_eq!(log[1 + HANGOVER_CHUNKS], "reset");
}

#[test]
fn forwarder_sends_block_then_one_end_per_turn() {
    let mut script = vec![true; MIN_SPEECH_CHUNKS];
    script.extend(vec![false; HANGOVER_CHUNKS]);
    let det_log = Arc::new(Mutex::new(Vec::new()));
    let det = Logged { answers: script.iter().copied().collect(), log: det_log.clone() };
    let log = Arc::new(Mutex::new(Vec::new()));
    let mut fwd = SpeechForwarder::new(Speaker::User, det, Transcribed { log: log.clone() });
    assert!(fwd.forward(&[]).is_empty());
    assert!(log.lock().unwrap().is_empty());
    assert!(det_log.lock().unwrap().is_empty());
    let n = (MIN_SPEECH_CHUNKS + HANGOVER_CHUNKS) * CHUNK_SAMPLES;
    let turns = fwd.forward(&vec![3i16; n]);
    assert_eq!(turns.len(), 1);
    assert_eq!(*log.lock().unwrap(), vec![format!("audio {}", n), "end".to_string()]);
}

#[test]
fn overlay_labels_colours_and_placeholder() {
    assert_eq!(visibility_label(true), "Unhide");
    assert_eq!(visibility_label(false), "Hide");
    assert_eq!(line_color(LineKind::Ai), Some((122, 162, 247)));
    assert_eq!(line_color(LineKind::User), None);
    assert_eq!(line_color(LineKind::Interviewer), None);
    assert_eq!(preview_placeholder(0), Some(PREVIEW_PLACEHOLDER));
    assert_eq!(PREVIEW_PLACEHOLDER, "Waiting for the conversation...");
    assert_eq!(preview_placeholder(3), None);
}

#[test]
fn pause_flag_flips_once_per_press() {
    let polls = [false, true, true, true, false, false, true, false, true, true];
    let mut paused = false;
    let mut was = false;
    let mut presses = 0;
    for &down in polls.iter() {
        if is_new_press(was, down) {
            paused = !paused;
            presses += 1;
        }
        was = down;
    }
    assert_eq!(presses, 3);
    assert_eq!(paused, presses % 2 == 1);
}

#[test]
fn context_is_handed_over_on_the_first_start_only() {
    let mut gate = SessionGate::new();
    assert!(!gate.started());
    assert!(gate.start());
    assert!(gate.started());
    assert!(!gate.start());
    assert!(gate.started());
}

#[test]
fn speech_then_long_silence_gives_one_turn_of_the_detected_chunks() {
    let s = MIN_SPEECH_CHUNKS + 1;
    let h = HANGOVER_CHUNKS + 2;
    let mut script = vec![true; s];
    script.extend(vec![false; h]);
    let log = Arc::new(Mutex::new(Vec::new()));
    let det = Logged { answers: script.iter().copied().collect(), log: log.clone() };
    let mut ch = VadChannel::new(Speaker::User, det);
    let mut samples = Vec::new();
    for i in 0..(s + h) {
        samples.extend(vec![i as i16; CHUNK_SAMPLES]);
    }
    let turns = ch.push(&samples);
    assert_eq!(turns.len(), 1);
    assert_eq!(turns[0].speaker, Speaker::User);
    assert_eq!(turns[0].audio, samples[..(s + HANGOVER_CHUNKS) * CHUNK_SAMPLES].to_vec());
}
