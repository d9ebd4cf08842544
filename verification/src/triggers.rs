//! When a detection is triggered: by new lines of the game's `EE.log`, or by the hotkey.
use vstd::prelude::*;
use crate::text::{contains_seq, contains_str, law_contains_embedded};

verus! {

/// Milliseconds to wait after the reward screen is detected in the log, so that the
/// reward screen has finished sliding in before the screen is captured.
pub const REWARD_SCREEN_SETTLE_MS: u64 = 750;

/// A log line that the game writes when the countdown before the reward screen ends.
pub open spec fn countdown_marker() -> Seq<char> {
    "Pause countdown done"@
}

/// A log line that the game writes when the relic rewards are known.
pub open spec fn rewards_marker() -> Seq<char> {
    "Got rewards"@
}

/// A log line that the game writes when it creates the reward choice screen.
pub open spec fn reward_choice_marker() -> Seq<char> {
    "Created /Lotus/Interface/ProjectionRewardChoice.swf"@
}

/// The line shows that the reward screen is (about to be) on screen.
pub open spec fn marks_reward_screen(line: Seq<char>) -> bool {
    ||| contains_seq(line, countdown_marker())
    ||| contains_seq(line, rewards_marker())
    ||| contains_seq(line, reward_choice_marker())
}

/// Some line of the batch marks the reward screen.
pub open spec fn batch_marks_reward_screen(lines: Seq<Seq<char>>) -> bool {
    exists|i: int| 0 <= i < lines.len() && marks_reward_screen(#[trigger] lines[i])
}

/// The character sequences of a batch of lines.
pub open spec fn line_views(lines: Seq<String>) -> Seq<Seq<char>> {
    lines.map_values(|l: String| l@)
}

/// Whether one log line marks the reward screen.
pub fn line_marks_reward_screen(line: &str) -> (r: bool)
    ensures
        r == marks_reward_screen(line@),
        r == (contains_seq(line@, "Pause countdown done"@) || contains_seq(line@, "Got rewards"@)
            || contains_seq(line@, "Created /Lotus/Interface/ProjectionRewardChoice.swf"@)),
{
    contains_str(line, "Pause countdown done")
        || contains_str(line, "Got rewards")
        || contains_str(line, "Created /Lotus/Interface/ProjectionRewardChoice.swf")
}

/// Whether the lines appended to the log since the last read show the reward screen.
/// Every line is looked at; one marking line is enough.
pub fn reward_screen_detected(lines: &Vec<String>) -> (r: bool)
    ensures
        r == batch_marks_reward_screen(line_views(lines@)),
{
    let mut detected = false;
    let n: usize = lines.len();
    for i in 0..n
        invariant
            n == lines.len(),
            detected == exists|j: int| 0 <= j < i && marks_reward_screen(#[trigger] lines@[j]@),
    {
        let hit = line_marks_reward_screen(lines[i].as_str());
        detected = detected || hit;
        assert(detected == exists|j: int| 0 <= j < i + 1 && marks_reward_screen(#[trigger] lines@[j]@))
            by {
            if hit {
                assert(marks_reward_screen(lines@[i as int]@));
            }
        }
    }
    let ghost views = line_views(lines@);
    assert(detected == batch_marks_reward_screen(views)) by {
        if detected {
            let j: int = choose|j: int| 0 <= j < n && marks_reward_screen(#[trigger] lines@[j]@);
            assert(views[j] == lines@[j]@);
        }
        if batch_marks_reward_screen(views) {
            let j: int = choose|j: int| 0 <= j < views.len() && marks_reward_screen(#[trigger] views[j]);
            assert(views[j] == lines@[j]@);
        }
    }
    detected
}

/// Law: reading the log in two batches detects the reward screen exactly when reading
/// it in one batch does.
pub proof fn law_detection_splits_over_batches(a: Seq<Seq<char>>, b: Seq<Seq<char>>)
    ensures
        batch_marks_reward_screen(a + b) == (batch_marks_reward_screen(a)
            || batch_marks_reward_screen(b)),
{
    let ab = a + b;
    if batch_marks_reward_screen(ab) {
        let i: int = choose|i: int| 0 <= i < ab.len() && marks_reward_screen(#[trigger] ab[i]);
        if i < a.len() {
            assert(ab[i] == a[i]);
        } else {
            assert(ab[i] == b[i - a.len()]);
        }
    }
    if batch_marks_reward_screen(a) {
        let i: int = choose|i: int| 0 <= i < a.len() && marks_reward_screen(#[trigger] a[i]);
        assert(ab[i] == a[i]);
    }
    if batch_marks_reward_screen(b) {
        let i: int = choose|i: int| 0 <= i < b.len() && marks_reward_screen(#[trigger] b[i]);
        assert(ab[i + a.len()] == b[i]);
    }
}

/// Law: a line marks the reward screen exactly when it contains one of the game's three
/// messages "Pause countdown done", "Got rewards" or
/// "Created /Lotus/Interface/ProjectionRewardChoice.swf", wherever in the line it stands
/// and whatever surrounds it.
pub proof fn law_marker_anywhere_in_line(line: Seq<char>, before: Seq<char>, after: Seq<char>)
    ensures
        marks_reward_screen(line) <==> (contains_seq(line, "Pause countdown done"@) || contains_seq(
            line,
            "Got rewards"@,
        ) || contains_seq(line, "Created /Lotus/Interface/ProjectionRewardChoice.swf"@)),
        marks_reward_screen(before + "Pause countdown done"@ + after),
        marks_reward_screen(before + "Got rewards"@ + after),
        marks_reward_screen(before + "Created /Lotus/Interface/ProjectionRewardChoice.swf"@ + after),
{
    law_contains_embedded(before, "Pause countdown done"@, after);
    law_contains_embedded(before, "Got rewards"@, after);
    law_contains_embedded(before, "Created /Lotus/Interface/ProjectionRewardChoice.swf"@, after);
}

/// Law: a batch of lines triggers a detection as soon as one of its lines marks the
/// reward screen, and only then.
pub proof fn law_batch_triggers_on_a_marking_line(lines: Seq<Seq<char>>, k: int)
    ensures
        0 <= k < lines.len() && marks_reward_screen(lines[k]) ==> batch_marks_reward_screen(lines),
        (forall|j: int| 0 <= j < lines.len() ==> !marks_reward_screen(#[trigger] lines[j]))
            ==> !batch_marks_reward_screen(lines),
{
}

/// The state that the hotkey was reported in.
#[derive(Debug, Clone, Copy, PartialEq, Eq)]
pub enum KeyState {
    Pressed,
    Released,
}

/// Whether a hotkey event triggers a detection: only a press does.
pub fn hotkey_triggers_detection(state: &KeyState) -> (r: bool)
    ensures
        r == (*state is Pressed),
{
    match state {
        KeyState::Pressed => true,
        KeyState::Released => false,
    }
}

} // verus!
