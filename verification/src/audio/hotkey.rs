//! Pausing and resuming capture: the shared flag, the key-press edge that
//! toggles it, and the label the window shows for it.
use vstd::prelude::*;

verus! {

/// Whether capture is paused, shared by the hotkey listener, the window and
/// the audio router.
pub type PauseFlag = std::sync::Arc<std::sync::atomic::AtomicBool>;

/// A new flag, not paused.
pub fn new_pause_flag() -> PauseFlag {
    std::sync::Arc::new(std::sync::atomic::AtomicBool::new(false))
}

/// Flips the flag and returns whether capture was paused before.
pub fn toggle_pause(flag: &PauseFlag) -> bool {
    flag.fetch_xor(true, std::sync::atomic::Ordering::Relaxed)
}

/// Whether capture is paused now.
pub fn is_paused(flag: &PauseFlag) -> bool {
    flag.load(std::sync::atomic::Ordering::Relaxed)
}

/// A press edge: the key is down now after having been up.
pub open spec fn press_edge(was_pressed: bool, is_pressed: bool) -> bool {
    is_pressed && !was_pressed
}

/// The key toggles the flag once per press: on the sample where it is down
/// after having been up.
pub fn is_new_press(was_pressed: bool, is_pressed: bool) -> (r: bool)
    ensures
        r == press_edge(was_pressed, is_pressed),
{
    is_pressed && !was_pressed
}

/// The key state before poll `i` of `polls`: up before the first poll.
pub open spec fn key_before(polls: Seq<bool>, i: int) -> bool {
    if i == 0 {
        false
    } else {
        polls[i - 1]
    }
}

/// The flag after polling the key states `polls`, starting from `paused` with
/// the key up, toggling on each press edge.
pub open spec fn flag_after_polls(paused: bool, polls: Seq<bool>) -> bool
    decreases polls.len(),
{
    if polls.len() == 0 {
        paused
    } else {
        let before = flag_after_polls(paused, polls.drop_last());
        if press_edge(key_before(polls, polls.len() - 1), polls.last()) {
            !before
        } else {
            before
        }
    }
}

/// The number of press edges in the key states `polls`, the key being up
/// before the first.
pub open spec fn press_count(polls: Seq<bool>) -> nat
    decreases polls.len(),
{
    if polls.len() == 0 {
        0
    } else {
        press_count(polls.drop_last()) + if press_edge(key_before(polls, polls.len() - 1), polls.last()) {
            1nat
        } else {
            0nat
        }
    }
}

/// Holding or releasing the key never toggles: after any polls, the flag has
/// flipped exactly once per press, so it differs from where it started
/// exactly when the number of presses is odd.
pub proof fn lemma_flag_follows_press_parity(paused: bool, polls: Seq<bool>)
    ensures
        flag_after_polls(paused, polls) == (paused != (press_count(polls) % 2 == 1)),
    decreases polls.len(),
{
    if polls.len() > 0 {
        let prev = polls.drop_last();
        lemma_flag_follows_press_parity(paused, prev);
        if polls.len() > 1 {
            assert(key_before(polls, polls.len() - 1) == prev.last());
        }
    }
}

/// The action the pause button offers: `"Resume"` while paused, `"Pause"` otherwise.
pub fn pause_label_for(paused: bool) -> (r: &'static str)
    ensures
        paused ==> r@ == "Resume"@,
        !paused ==> r@ == "Pause"@,
{
    if paused {
        "Resume"
    } else {
        "Pause"
    }
}

/// The action the pause button offers for the current state of `flag`.
pub fn pause_label(flag: &PauseFlag) -> (r: &'static str)
    ensures
        r@ == "Resume"@ || r@ == "Pause"@,
{
    pause_label_for(is_paused(flag))
}

} // verus!
