//! Picking the best reward among the recognised items of one reward screen.
//!
//! Scores are `f32` values, carried here by their IEEE-754 bit patterns and compared
//! in the total order of `f32::total_cmp`.
use vstd::prelude::*;

verus! {

/// An item that was recognised on the reward screen, with what the overlay shows of it.
#[derive(Debug, Clone, PartialEq, Eq)]
pub struct RecognizedItem {
    /// The item's name as the drop tables write it.
    pub drop_name: String,
    /// Bit pattern of the item's platinum price (`f32`).
    pub platinum_bits: u32,
    /// The item's ducat value.
    pub ducats: u64,
    /// Bit pattern of the item's score (`f32`): the larger of its platinum price and
    /// a tenth of its ducats plus a hundredth of its platinum price.
    pub score_bits: u32,
}

/// What the overlay shows of one reward.
#[derive(Debug, Clone, PartialEq, Eq)]
pub struct DetectedItem {
    pub drop_name: String,
    /// Bit pattern of the platinum price (`f32`).
    pub platinum_bits: u32,
    /// The ducat value; the overlay shows a tenth of it.
    pub ducats: u64,
    /// The reward with the highest score on the screen.
    pub is_best: bool,
}

/// What the overlay shows for one reward screen: one entry per reward, `None` for a
/// reward that was not recognised.
pub type DetectionResult = Vec<Option<DetectedItem>>;

/// Bit pattern of the `f32` value `0.0`: the score of a reward that was not recognised.
pub const UNKNOWN_SCORE_BITS: u32 = 0;

/// The position of an `f32` bit pattern in the total order of `f32::total_cmp`:
/// values with the sign bit clear ascend with their bits, values with it set descend.
pub open spec fn order_key(bits: u32) -> int {
    if bits < 0x8000_0000 {
        bits as int
    } else {
        0x7fff_ffff - bits as int
    }
}

/// `i` is the last position of a largest score in `scores` (ties go to the later one,
/// as `Iterator::max_by` chooses).
pub open spec fn is_last_maximum(scores: Seq<u32>, i: int) -> bool {
    &&& 0 <= i < scores.len()
    &&& forall|j: int| 0 <= j < scores.len() ==> order_key(#[trigger] scores[j]) <= order_key(scores[i])
    &&& forall|j: int| i < j < scores.len() ==> order_key(#[trigger] scores[j]) < order_key(scores[i])
}

/// The score of each reward; unrecognised rewards score `0.0`.
pub open spec fn scores_of(items: Seq<Option<RecognizedItem>>) -> Seq<u32> {
    items.map_values(|o: Option<RecognizedItem>| match o {
        Some(it) => it.score_bits,
        None => UNKNOWN_SCORE_BITS,
    })
}

/// What the overlay shows for the reward at position `i`.
pub open spec fn detected_at(items: Seq<Option<RecognizedItem>>, i: int) -> Option<DetectedItem> {
    match items[i] {
        Some(it) => Some(
            DetectedItem {
                drop_name: it.drop_name,
                platinum_bits: it.platinum_bits,
                ducats: it.ducats,
                is_best: is_last_maximum(scores_of(items), i),
            },
        ),
        None => None,
    }
}

/// The total-order position of an `f32` bit pattern, as `f32::total_cmp` compares.
pub fn score_order_key(bits: u32) -> (k: i64)
    ensures
        k == order_key(bits),
        bits < 0x8000_0000 ==> k == bits,
        bits >= 0x8000_0000 ==> k < 0 && k == 0x7fff_ffff - bits,
{
    if bits < 0x8000_0000 {
        bits as i64
    } else {
        0x7fff_ffff - bits as i64
    }
}

/// The position of the last largest score, or `None` when there are no scores.
pub fn best_index(scores: &Vec<u32>) -> (r: Option<usize>)
    ensures
        r is None <==> scores.len() == 0,
        r matches Some(i) ==> is_last_maximum(scores@, i as int),
{
    let n: usize = scores.len();
    if n == 0 {
        return None;
    }
    let mut best: usize = 0;
    let mut best_key = score_order_key(scores[0]);
    let mut j: usize = 1;
    while j < n
        invariant
            n == scores.len(),
            1 <= j <= n,
            best < j,
            best_key == order_key(scores@[best as int]),
            forall|k: int| 0 <= k < j ==> order_key(#[trigger] scores@[k]) <= best_key,
            forall|k: int| best < k < j ==> order_key(#[trigger] scores@[k]) < best_key,
        decreases n - j,
    {
        let key: i64 = score_order_key(scores[j]);
        if key >= best_key {
            best = j;
            best_key = key;
        }
        j = j + 1;
    }
    Some(best)
}

/// The score of one reward; `0.0` when it was not recognised.
pub fn score_of(item: &Option<RecognizedItem>) -> (s: u32)
    ensures
        s == (match *item {
            Some(it) => it.score_bits,
            None => UNKNOWN_SCORE_BITS,
        }),
{
    match item {
        Some(it) => it.score_bits,
        None => UNKNOWN_SCORE_BITS,
    }
}

/// The position of the best reward: the last one with the largest score, unrecognised
/// rewards scoring `0.0`; `None` when the screen showed no reward at all.
pub fn best_reward(items: &Vec<Option<RecognizedItem>>) -> (r: Option<usize>)
    ensures
        r is None <==> items.len() == 0,
        r matches Some(i) ==> is_last_maximum(scores_of(items@), i as int),
{
    let mut scores: Vec<u32> = Vec::new();
    let n: usize = items.len();
    for i in 0..n
        invariant
            n == items.len(),
            scores@ == scores_of(items@).take(i as int),
    {
        let s: u32 = score_of(&items[i]);
        scores.push(s);
        assert(scores@ =~= scores_of(items@).take(i + 1));
    }
    assert(scores@ =~= scores_of(items@));
    best_index(&scores)
}

/// What the overlay shows for the rewards of one screen: every recognised reward with its
/// name, platinum price and ducats, the best one marked; `None` for the rest.
pub fn run_detection(items: &Vec<Option<RecognizedItem>>) -> (result: Vec<Option<DetectedItem>>)
    ensures
        result.len() == items.len(),
        forall|i: int| 0 <= i < items.len() ==> #[trigger] result@[i] == detected_at(items@, i),
        forall|i: int| 0 <= i < items.len() ==> (#[trigger] result@[i] is None <==> items@[i] is None),
        forall|i: int|
            0 <= i < items.len() && items@[i] is Some ==> (#[trigger] result@[i] matches Some(d) && d.drop_name
                == items@[i]->0.drop_name && d.platinum_bits == items@[i]->0.platinum_bits && d.ducats
                == items@[i]->0.ducats),
{
    let best = best_reward(items);
    let ghost scores = scores_of(items@);
    let n: usize = items.len();
    let mut result: Vec<Option<DetectedItem>> = Vec::new();
    for i in 0..n
        invariant
            n == items.len(),
            result.len() == i,
            best is None <==> n == 0,
            best matches Some(b) ==> is_last_maximum(scores, b as int),
            scores == scores_of(items@),
            forall|k: int| 0 <= k < i ==> #[trigger] result@[k] == detected_at(items@, k),
    {
        let entry = match &items[i] {
            Some(it) => {
                let is_best = match best {
                    Some(b) => b == i,
                    None => false,
                };
                proof {
                    let b: usize = best->0;
                    if is_last_maximum(scores, i as int) && b != i {
                        if b < i {
                            assert(order_key(scores[i as int]) < order_key(scores[b as int]));
                        } else {
                            assert(order_key(scores[b as int]) < order_key(scores[i as int]));
                        }
                    }
                }
                Some(
                    DetectedItem {
                        drop_name: it.drop_name.clone(),
                        platinum_bits: it.platinum_bits,
                        ducats: it.ducats,
                        is_best,
                    },
                )
            },
            None => None,
        };
        result.push(entry);
    }
    result
}

/// Law: what the overlay shows for a reward is that reward's own name, platinum price and
/// ducats; a reward that was not recognised shows nothing.
pub proof fn law_entry_carries_the_reward(items: Seq<Option<RecognizedItem>>, i: int)
    requires
        0 <= i < items.len(),
    ensures
        items[i] is None ==> detected_at(items, i) is None,
        items[i] matches Some(it) ==> (detected_at(items, i) matches Some(d) && d.drop_name
            == it.drop_name && d.platinum_bits == it.platinum_bits && d.ducats == it.ducats),
{
}

/// Law: the keys order `f32` bit patterns as `f32::total_cmp` orders the values: values
/// with the sign bit clear keep their bit pattern as key (so they ascend with it), values
/// with it set descend with their bits and come before all others, and no two bit
/// patterns share a key.
pub proof fn law_order_key_follows_total_order(a: u32, b: u32)
    ensures
        a < 0x8000_0000 ==> order_key(a) == a,
        a < b < 0x8000_0000 ==> order_key(a) < order_key(b),
        0x8000_0000 <= a < b ==> order_key(b) < order_key(a),
        0x8000_0000 <= a && b < 0x8000_0000 ==> order_key(a) < 0 <= order_key(b),
        order_key(a) == order_key(b) ==> a == b,
{
}

/// Law: a recognised reward is marked best exactly when its score is at least that of
/// every recognised reward and at least `0.0` (the score of an unrecognised one), and
/// strictly above the scores of all later rewards.
pub proof fn law_best_flag_by_scores(items: Seq<Option<RecognizedItem>>, i: int)
    requires
        0 <= i < items.len(),
        items[i] is Some,
    ensures
        detected_at(items, i)->0.is_best <==> {
            let best = items[i]->0.score_bits;
            &&& forall|j: int|
                0 <= j < items.len() ==> (#[trigger] items[j] matches Some(o) ==> order_key(o.score_bits)
                    <= order_key(best))
            &&& forall|j: int| 0 <= j < items.len() && (#[trigger] items[j]) is None ==> 0 <= order_key(best)
            &&& forall|j: int|
                i < j < items.len() ==> (#[trigger] items[j] matches Some(o) ==> order_key(o.score_bits)
                    < order_key(best))
            &&& forall|j: int| i < j < items.len() && (#[trigger] items[j]) is None ==> 0 < order_key(best)
        },
{
    let s = scores_of(items);
    assert forall|j: int| 0 <= j < items.len() implies #[trigger] s[j] == (match items[j] {
        Some(o) => o.score_bits,
        None => 0u32,
    }) by {}
    assert(order_key(0u32) == 0);
    let best = items[i]->0.score_bits;
    assert(s[i] == best);
    if is_last_maximum(s, i) {
        assert forall|j: int|
            0 <= j < items.len() implies (#[trigger] items[j] matches Some(o) ==> order_key(o.score_bits)
            <= order_key(best)) by {
            assert(order_key(s[j]) <= order_key(s[i]));
        }
        assert forall|j: int| 0 <= j < items.len() && (#[trigger] items[j]) is None implies 0
            <= order_key(best) by {
            assert(order_key(s[j]) <= order_key(s[i]));
        }
        assert forall|j: int|
            i < j < items.len() implies (#[trigger] items[j] matches Some(o) ==> order_key(o.score_bits)
            < order_key(best)) by {
            assert(order_key(s[j]) < order_key(s[i]));
        }
        assert forall|j: int| i < j < items.len() && (#[trigger] items[j]) is None implies 0
            < order_key(best) by {
            assert(order_key(s[j]) < order_key(s[i]));
        }
    }
    if ({
        &&& forall|j: int|
            0 <= j < items.len() ==> (#[trigger] items[j] matches Some(o) ==> order_key(o.score_bits)
                <= order_key(best))
        &&& forall|j: int| 0 <= j < items.len() && (#[trigger] items[j]) is None ==> 0 <= order_key(best)
        &&& forall|j: int|
            i < j < items.len() ==> (#[trigger] items[j] matches Some(o) ==> order_key(o.score_bits)
                < order_key(best))
        &&& forall|j: int| i < j < items.len() && (#[trigger] items[j]) is None ==> 0 < order_key(best)
    }) {
        assert forall|j: int| 0 <= j < s.len() implies order_key(#[trigger] s[j]) <= order_key(s[i]) by {
            if items[j] is None {
            } else {
            }
        }
        assert forall|j: int| i < j < s.len() implies order_key(#[trigger] s[j]) < order_key(s[i]) by {
            if items[j] is None {
            } else {
            }
        }
        assert(is_last_maximum(s, i));
    }
}

/// Law: a score appended after the scores seen so far becomes the best when it is at
/// least as large as the best so far (ties go to the later score), and leaves the best
/// where it was otherwise.
pub proof fn law_last_maximum_after_push(scores: Seq<u32>, i: int, x: u32)
    requires
        is_last_maximum(scores, i),
    ensures
        order_key(x) >= order_key(scores[i]) ==> is_last_maximum(scores.push(x), scores.len() as int),
        order_key(x) < order_key(scores[i]) ==> is_last_maximum(scores.push(x), i),
{
    let t = scores.push(x);
    assert forall|j: int| 0 <= j < scores.len() implies #[trigger] t[j] == scores[j] by {}
    assert(t[scores.len() as int] == x);
}

/// Law: a single score is the best of its own, and no sequence of scores has two bests.
pub proof fn law_last_maximum_unique(scores: Seq<u32>, i: int, j: int, x: u32)
    ensures
        is_last_maximum(seq![x], 0),
        is_last_maximum(scores, i) && is_last_maximum(scores, j) ==> i == j,
{
    if is_last_maximum(scores, i) && is_last_maximum(scores, j) && i != j {
        if i < j {
            assert(order_key(scores[j]) < order_key(scores[i]));
        } else {
            assert(order_key(scores[i]) < order_key(scores[j]));
        }
    }
}

/// Law: at most one reward of a screen is marked best.
pub proof fn law_at_most_one_best(items: Seq<Option<RecognizedItem>>, i: int, j: int)
    requires
        0 <= i < items.len(),
        0 <= j < items.len(),
        detected_at(items, i) matches Some(a) && a.is_best,
        detected_at(items, j) matches Some(b) && b.is_best,
    ensures
        i == j,
{
    let s = scores_of(items);
    if i < j {
        assert(order_key(s[j]) < order_key(s[i]));
    } else if j < i {
        assert(order_key(s[i]) < order_key(s[j]));
    }
}

/// Law: the reward marked best scores at least as high as every other reward,
/// unrecognised rewards counting as `0.0`.
pub proof fn law_best_scores_highest(items: Seq<Option<RecognizedItem>>, i: int, j: int)
    requires
        0 <= i < items.len(),
        0 <= j < items.len(),
        detected_at(items, i) matches Some(a) && a.is_best,
    ensures
        order_key(scores_of(items)[j]) <= order_key(scores_of(items)[i]),
{
}

/// Law: when some recognised reward scores above `0.0`, exactly one reward is marked best
/// (the best is never an unrecognised reward then).
pub proof fn law_positive_score_has_a_best(items: Seq<Option<RecognizedItem>>, k: int)
    requires
        0 <= k < items.len(),
        items[k] matches Some(it) && order_key(it.score_bits) > 0,
    ensures
        exists|i: int|
            0 <= i < items.len() && (#[trigger] detected_at(items, i) matches Some(d) && d.is_best),
{
    let s = scores_of(items);
    assert(s[k] == items[k]->0.score_bits);
    let b: int = choose_last_maximum(s);
    assert(order_key(s[k]) <= order_key(s[b]));
    if items[b] is None {
        assert(s[b] == UNKNOWN_SCORE_BITS);
    }
    assert(detected_at(items, b) matches Some(d) && d.is_best);
}

/// Every non-empty sequence of scores has a last maximum.
pub proof fn choose_last_maximum(scores: Seq<u32>) -> (b: int)
    requires
        scores.len() > 0,
    ensures
        is_last_maximum(scores, b),
    decreases scores.len(),
{
    if scores.len() == 1 {
        0
    } else {
        let front = scores.drop_last();
        let b0 = choose_last_maximum(front);
        let last: int = scores.len() - 1;
        assert forall|j: int| 0 <= j < front.len() implies #[trigger] scores[j] == front[j] by {}
        if order_key(scores[last]) >= order_key(scores[b0]) {
            assert forall|j: int| 0 <= j < scores.len() implies order_key(#[trigger] scores[j])
                <= order_key(scores[last]) by {
                if j < last {
                    assert(scores[j] == front[j]);
                }
            }
            last
        } else {
            assert forall|j: int| 0 <= j < scores.len() implies order_key(#[trigger] scores[j])
                <= order_key(scores[b0]) by {
                if j < last {
                    assert(scores[j] == front[j]);
                }
            }
            assert forall|j: int| b0 < j < scores.len() implies order_key(#[trigger] scores[j])
                < order_key(scores[b0]) by {
                if j < last {
                    assert(scores[j] == front[j]);
                }
            }
            b0
        }
    }
}

} // verus!
