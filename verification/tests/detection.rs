use wfinfo::detection::{
    best_index, best_reward, run_detection, score_of, score_order_key, DetectedItem,
    RecognizedItem, UNKNOWN_SCORE_BITS,
};

fn score(platinum: f32, ducats: u64) -> f32 {
    platinum.max(ducats as f32 / 10.0 + platinum / 100.0)
}

fn item(name: &str, platinum: f32, ducats: u64) -> Option<RecognizedItem> {
    Some(RecognizedItem {
        drop_name: name.to_string(),
        platinum_bits: platinum.to_bits(),
        ducats,
        score_bits: score(platinum, ducats).to_bits(),
    })
}

fn best_flags(result: &[Option<DetectedItem>]) -> Vec<bool> {
    result.iter().map(|d| d.as_ref().map_or(false, |d| d.is_best)).collect()
}

#[test]
fn order_key_follows_total_cmp() {
    let values = [f32::NEG_INFINITY, -2.5, -1.0, -0.0, 0.0, 0.5, 1.0, 100.0, f32::INFINITY, f32::NAN];
    for a in values {
        for b in values {
            assert_eq!(
                score_order_key(a.to_bits()).cmp(&score_order_key(b.to_bits())),
                a.total_cmp(&b),
                "{a} vs {b}"
            );
        }
    }
}

#[test]
fn order_key_exact_values() {
    assert_eq!(score_order_key(0.0f32.to_bits()), 0);
    assert_eq!(score_order_key((-0.0f32).to_bits()), -1);
    assert_eq!(score_order_key(1.0f32.to_bits()), 0x3f80_0000);
    assert_eq!(score_order_key((-1.0f32).to_bits()), 0x7fff_ffff - 0xbf80_0000i64);
}

#[test]
fn best_index_of_nothing() {
    assert_eq!(best_index(&Vec::new()), None);
}

#[test]
fn best_index_takes_the_last_of_equal_maxima() {
    let v = vec![1.0f32.to_bits(), 3.0f32.to_bits(), 3.0f32.to_bits(), 2.0f32.to_bits()];
    assert_eq!(best_index(&v), Some(2));
}

#[test]
fn best_index_with_negative_scores() {
    let v = vec![(-3.0f32).to_bits(), (-1.0f32).to_bits(), (-2.0f32).to_bits()];
    assert_eq!(best_index(&v), Some(1));
}

#[test]
fn best_index_agrees_with_max_by_total_cmp() {
    let v = [0.5f32, 12.0, -4.0, 12.0, 7.25, 0.0];
    let expected = v
        .iter()
        .enumerate()
        .max_by(|a, b| a.1.total_cmp(b.1))
        .map(|best| best.0);
    let bits: Vec<u32> = v.iter().map(|x| x.to_bits()).collect();
    assert_eq!(best_index(&bits), expected);
}

#[test]
fn unrecognised_reward_scores_zero() {
    assert_eq!(score_of(&None), UNKNOWN_SCORE_BITS);
    assert_eq!(f32::from_bits(UNKNOWN_SCORE_BITS), 0.0);
    assert_eq!(score_of(&item("A", 4.0, 0)), 4.0f32.to_bits());
}

#[test]
fn best_reward_counts_unknown_as_zero() {
    let items = vec![item("A", -1.0, 0), None];
    // the unknown reward (0.0) beats a negative score, so no recognised item is best
    assert_eq!(best_reward(&items), Some(1));
    let result = run_detection(&items);
    assert_eq!(best_flags(&result), vec![false, false]);
}

#[test]
fn run_detection_marks_the_highest_score() {
    let items = vec![
        item("Octavia Prime Systems Blueprint", 12.0, 45),
        item("Octavia Prime Blueprint", 30.0, 100),
        None,
        item("Harrow Prime Systems Blueprint", 8.0, 100),
    ];
    let result = run_detection(&items);
    assert_eq!(result.len(), 4);
    assert_eq!(best_flags(&result), vec![false, true, false, false]);
    let second = result[1].as_ref().unwrap();
    assert_eq!(second.drop_name, "Octavia Prime Blueprint");
    assert_eq!(f32::from_bits(second.platinum_bits), 30.0);
    assert_eq!(second.ducats, 100);
    assert!(result[2].is_none());
}

#[test]
fn ducats_can_outweigh_platinum() {
    // score of the second: max(5, 100 / 10 + 5 / 100) = 10.05
    let items = vec![item("A", 10.0, 0), item("B", 5.0, 100)];
    assert_eq!(best_flags(&run_detection(&items)), vec![false, true]);
}

#[test]
fn equal_scores_mark_the_later_reward() {
    let items = vec![item("A", 10.0, 15), item("B", 10.0, 15), item("C", 1.0, 0)];
    assert_eq!(best_flags(&run_detection(&items)), vec![false, true, false]);
}

#[test]
fn nothing_recognised_marks_nothing() {
    let items: Vec<Option<RecognizedItem>> = vec![None, None, None];
    let result = run_detection(&items);
    assert_eq!(result, vec![None, None, None]);
    assert_eq!(run_detection(&Vec::new()), Vec::new());
}

#[test]
fn at_most_one_best_and_it_scores_highest() {
    let items = vec![item("A", 3.0, 10), None, item("B", 9.0, 0), item("C", 9.0, 0), item("D", 0.5, 90)];
    let result = run_detection(&items);
    let flags = best_flags(&result);
    assert_eq!(flags.iter().filter(|f| **f).count(), 1);
    let b = flags.iter().position(|f| *f).unwrap();
    assert_eq!(b, 4);
    for i in 0..items.len() {
        assert!(score_order_key(score_of(&items[i])) <= score_order_key(score_of(&items[b])));
    }
}

#[test]
fn positive_score_has_a_best() {
    let items = vec![None, item("A", 0.25, 0), None];
    assert_eq!(best_flags(&run_detection(&items)), vec![false, true, false]);
}
