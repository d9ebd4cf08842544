use wfinfo::text::{chars_of, contains_str};

#[test]
fn finds_needle_in_the_middle() {
    assert!(contains_str("abc Got rewards def", "Got rewards"));
}

#[test]
fn finds_needle_at_both_ends() {
    assert!(contains_str("Got rewards", "Got rewards"));
    assert!(contains_str("Got rewards!", "Got"));
    assert!(contains_str("I Got", "Got"));
}

#[test]
fn misses_absent_needle() {
    assert!(!contains_str("Got reward", "Got rewards"));
    assert!(!contains_str("got rewards", "Got rewards"));
}

#[test]
fn empty_needle_is_everywhere() {
    assert!(contains_str("", ""));
    assert!(contains_str("abc", ""));
}

#[test]
fn needle_longer_than_haystack() {
    assert!(!contains_str("ab", "abc"));
    assert!(!contains_str("", "a"));
}

#[test]
fn partial_overlap_is_retried() {
    assert!(contains_str("aaab", "aab"));
    assert!(!contains_str("aabaa", "aaa"));
}

#[test]
fn non_ascii_characters() {
    assert!(contains_str("★ BEST PICK ⬡", "PICK ⬡"));
    assert!(!contains_str("⬡◈", "◈⬡"));
}

#[test]
fn chars_of_keeps_every_character() {
    assert_eq!(chars_of("a★b"), vec!['a', '★', 'b']);
    assert_eq!(chars_of(""), Vec::<char>::new());
}
