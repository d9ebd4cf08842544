use wfinfo::triggers::{
    hotkey_triggers_detection, line_marks_reward_screen, reward_screen_detected, KeyState,
    REWARD_SCREEN_SETTLE_MS,
};

fn lines(ls: &[&str]) -> Vec<String> {
    ls.iter().map(|s| s.to_string()).collect()
}

#[test]
fn countdown_line_marks_reward_screen() {
    assert!(line_marks_reward_screen(
        "123.456 Script [Info]: ProjectionRewardChoice.lua: Pause countdown done"
    ));
}

#[test]
fn rewards_line_marks_reward_screen() {
    assert!(line_marks_reward_screen("Sys [Info]: Got rewards"));
}

#[test]
fn reward_choice_screen_line_marks_reward_screen() {
    assert!(line_marks_reward_screen(
        "Sys [Info]: Created /Lotus/Interface/ProjectionRewardChoice.swf"
    ));
}

#[test]
fn other_lines_do_not_mark_reward_screen() {
    assert!(!line_marks_reward_screen("Sys [Info]: Created /Lotus/Interface/Inventory.swf"));
    assert!(!line_marks_reward_screen("Pause countdown"));
    assert!(!line_marks_reward_screen("got rewards"));
    assert!(!line_marks_reward_screen(""));
}

#[test]
fn batch_with_one_marking_line_is_detected() {
    let batch = lines(&["Sys [Info]: loading", "Sys [Info]: Got rewards", "Sys [Info]: done"]);
    assert!(reward_screen_detected(&batch));
}

#[test]
fn batch_without_marking_line_is_not_detected() {
    let batch = lines(&["Sys [Info]: loading", "Sys [Info]: done"]);
    assert!(!reward_screen_detected(&batch));
    assert!(!reward_screen_detected(&Vec::new()));
}

#[test]
fn detection_splits_over_batches() {
    let a = lines(&["nothing here"]);
    let b = lines(&["Pause countdown done"]);
    let mut ab = a.clone();
    ab.extend(b.clone());
    assert_eq!(
        reward_screen_detected(&ab),
        reward_screen_detected(&a) || reward_screen_detected(&b)
    );
    assert!(reward_screen_detected(&ab));
}

#[test]
fn only_a_press_triggers() {
    assert!(hotkey_triggers_detection(&KeyState::Pressed));
    assert!(!hotkey_triggers_detection(&KeyState::Released));
}

#[test]
fn settle_delay_is_750_ms() {
    assert_eq!(REWARD_SCREEN_SETTLE_MS, 750);
}
