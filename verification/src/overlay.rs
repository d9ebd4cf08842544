//! The overlay's state from frame to frame: which detection result it shows, until when,
//! and what each frame has to do.
use vstd::prelude::*;
use crate::detection::DetectedItem;

verus! {

/// How long a detection result stays on screen, in milliseconds.
pub const DISPLAY_DURATION_MS: u64 = 30_000;

/// The overlay polls for new results at least this often, in milliseconds.
pub const POLL_INTERVAL_MS: u64 = 250;

/// The overlay repaints at least this often, in milliseconds.
pub const REPAINT_INTERVAL_MS: u64 = 100;

/// The overlay's state: the result on screen and the time (in milliseconds on the
/// overlay's clock) at which it is dismissed.
pub struct OverlayState {
    result: Vec<Option<DetectedItem>>,
    display_until: Option<u64>,
}

/// The mathematical value of an overlay state.
pub struct OverlayModel {
    pub result: Seq<Option<DetectedItem>>,
    pub display_until: Option<u64>,
}

/// What one frame of the overlay has to do besides keeping its state.
#[derive(Debug)]
pub struct FrameActions {
    /// A new result arrived: put the window on top of all others and focus it.
    pub raise_window: bool,
    /// Positions of the recognised items of the new result, in order, to be listed in a
    /// desktop notification; empty when no notification is to be sent.
    pub notify: Vec<usize>,
    /// Draw the result.
    pub render: bool,
}

/// How a reward's card is drawn.
#[derive(Debug, Clone, Copy, PartialEq, Eq)]
pub enum CardKind {
    /// The reward was not found in the item database.
    Unknown,
    /// A recognised reward.
    Regular,
    /// The recognised reward with the highest score.
    BestPick,
}

impl View for OverlayState {
    type V = OverlayModel;

    closed spec fn view(&self) -> OverlayModel {
        OverlayModel { result: self.result@, display_until: self.display_until }
    }
}

/// A state is well formed when nothing is kept that is not on display.
pub open spec fn well_formed(m: OverlayModel) -> bool {
    m.display_until is None ==> m.result.len() == 0
}

/// The empty state: nothing shown.
pub open spec fn empty_model() -> OverlayModel {
    OverlayModel { result: Seq::empty(), display_until: None }
}

/// The state after a new result arrived at `now`.
pub open spec fn showing(result: Seq<Option<DetectedItem>>, now: u64) -> OverlayModel {
    OverlayModel { result, display_until: Some((now + DISPLAY_DURATION_MS) as u64) }
}

/// The clock allows a result to arrive at `now`: its dismissal time is representable.
pub open spec fn clock_ok(now: u64) -> bool {
    now + DISPLAY_DURATION_MS <= u64::MAX
}

/// The state after one frame at time `now`, in which `received` arrived (or nothing did):
/// a new result replaces the old one and is shown until `now` plus the display duration;
/// a result whose time is up is dismissed.
pub open spec fn step(m: OverlayModel, received: Option<Seq<Option<DetectedItem>>>, now: u64) -> OverlayModel {
    let m1 = match received {
        Some(r) => showing(r, now),
        None => m,
    };
    match m1.display_until {
        Some(until) => if now >= until {
            empty_model()
        } else {
            m1
        },
        None => m1,
    }
}

/// The result is drawn: there is something to draw and it is on display.
pub open spec fn shows(m: OverlayModel) -> bool {
    m.result.len() > 0 && m.display_until is Some
}

/// `idx` lists, in increasing order, exactly the positions of `result` that hold a
/// recognised item.
pub open spec fn lists_recognized(idx: Seq<usize>, result: Seq<Option<DetectedItem>>) -> bool {
    &&& forall|k: int| 0 <= k < idx.len() ==> #[trigger] idx[k] < result.len() && result[idx[k] as int] is Some
    &&& forall|k: int, l: int| 0 <= k < l < idx.len() ==> idx[k] < idx[l]
    &&& forall|i: int| 0 <= i < result.len() && (#[trigger] result[i]) is Some ==> exists|k: int|
        0 <= k < idx.len() && idx[k] == i
}

/// The view of what arrived in a frame.
pub open spec fn received_view(received: Option<Vec<Option<DetectedItem>>>) -> Option<Seq<Option<DetectedItem>>> {
    match received {
        Some(r) => Some(r@),
        None => None,
    }
}

/// The positions of the recognised items of `result`, in increasing order.
pub fn recognized_positions(result: &Vec<Option<DetectedItem>>) -> (idx: Vec<usize>)
    ensures
        lists_recognized(idx@, result@),
{
    let mut idx: Vec<usize> = Vec::new();
    let n: usize = result.len();
    for i in 0..n
        invariant
            n == result.len(),
            forall|k: int| 0 <= k < idx.len() ==> #[trigger] idx@[k] < i && result@[idx@[k] as int] is Some,
            forall|k: int, l: int| 0 <= k < l < idx.len() ==> idx@[k] < idx@[l],
            forall|j: int| 0 <= j < i && (#[trigger] result@[j]) is Some ==> exists|k: int|
                0 <= k < idx.len() && idx@[k] == j,
    {
        let ghost before = idx@;
        if result[i].is_some() {
            idx.push(i);
            assert(idx@[idx.len() - 1] == i);
        }
        assert forall|j: int| 0 <= j < i + 1 && (#[trigger] result@[j]) is Some implies exists|k: int|
            0 <= k < idx.len() && idx@[k] == j by {
            if j < i {
                let k: int = choose|k: int| 0 <= k < before.len() && before[k] == j;
                assert(idx@[k] == before[k]);
            } else {
                assert(idx@[idx.len() - 1] == i);
            }
        }
    }
    idx
}

impl OverlayState {
    /// The state of a new overlay: nothing shown.
    pub fn new() -> (s: OverlayState)
        ensures
            s@ == empty_model(),
    {
        OverlayState { result: Vec::new(), display_until: None }
    }

    /// The result on display.
    pub fn result(&self) -> (r: &Vec<Option<DetectedItem>>)
        ensures
            r@ == self@.result,
    {
        &self.result
    }

    /// The time at which the result on display is dismissed, if one is on display.
    pub fn display_until(&self) -> (u: Option<u64>)
        ensures
            u == self@.display_until,
    {
        self.display_until
    }

    /// One frame at time `now` (milliseconds on the overlay's clock), in which `received`
    /// arrived from the detection or nothing did.
    pub fn update(&mut self, received: Option<Vec<Option<DetectedItem>>>, now: u64) -> (a: FrameActions)
        requires
            received is Some ==> clock_ok(now),
        ensures
            final(self)@ == step(old(self)@, received_view(received), now),
            a.raise_window == received is Some,
            received matches Some(r) ==> lists_recognized(a.notify@, r@),
            received is None ==> a.notify@.len() == 0,
            a.render == shows(final(self)@),
            received matches Some(r) ==> (final(self)@.result == r@ && final(self)@.display_until == Some(
                (now + 30_000) as u64,
            )),
            received is None && old(self)@.display_until is Some && now >= old(self)@.display_until->0
                ==> (final(self)@.result.len() == 0 && final(self)@.display_until is None),
            received is None && (old(self)@.display_until is None || now < old(self)@.display_until->0)
                ==> final(self)@ == old(self)@,
            a.render == (final(self)@.result.len() > 0 && final(self)@.display_until is Some),
            received matches Some(r) ==> (a.notify@.len() > 0 <==> exists|i: int|
                0 <= i < r.len() && (#[trigger] r@[i]) is Some),
    {
        let mut raise_window = false;
        let mut notify: Vec<usize> = Vec::new();
        match received {
            Some(r) => {
                notify = recognized_positions(&r);
                self.result = r;
                self.display_until = Some(now + DISPLAY_DURATION_MS);
                raise_window = true;
            },
            None => {},
        }
        match self.display_until {
            Some(until) => {
                if now >= until {
                    self.display_until = None;
                    self.result = Vec::new();
                }
            },
            None => {},
        }
        proof {
            assert(self@.result =~= step(old(self)@, received_view(received), now).result);
            if received is Some {
                law_notification_iff_recognized(notify@, received->0@);
            }
        }
        let render = self.result.len() > 0 && self.display_until.is_some();
        FrameActions { raise_window, notify, render }
    }
}

/// How the card of one reward is drawn.
pub fn card_kind(item: &Option<DetectedItem>) -> (k: CardKind)
    ensures
        k == (match *item {
            None => CardKind::Unknown,
            Some(d) => if d.is_best {
                CardKind::BestPick
            } else {
                CardKind::Regular
            },
        }),
{
    match item {
        None => CardKind::Unknown,
        Some(d) => if d.is_best {
            CardKind::BestPick
        } else {
            CardKind::Regular
        },
    }
}

/// The state after a run of frames in which nothing arrived, at the times `times`.
pub open spec fn idle_frames(m: OverlayModel, times: Seq<u64>) -> OverlayModel
    decreases times.len(),
{
    if times.len() == 0 {
        m
    } else {
        step(idle_frames(m, times.drop_last()), None, times.last())
    }
}

/// Law: every frame keeps the state well formed.
pub proof fn law_step_keeps_well_formed(m: OverlayModel, received: Option<Seq<Option<DetectedItem>>>, now: u64)
    requires
        well_formed(m),
        received is Some ==> clock_ok(now),
    ensures
        well_formed(step(m, received, now)),
{
}

/// Law: the frame in which a result arrives shows it, unless it is empty, and replaces
/// whatever was shown before.
pub proof fn law_new_result_is_shown(m: OverlayModel, r: Seq<Option<DetectedItem>>, now: u64)
    requires
        clock_ok(now),
    ensures
        step(m, Some(r), now) == showing(r, now),
        shows(step(m, Some(r), now)) == (r.len() > 0),
{
}

/// Law: a result that arrived at `t` stays on display, unchanged, through any frames
/// without a new result that all come before `t` plus the display duration; once a
/// frame comes at or after that time, nothing is shown any more.
pub proof fn law_result_dismissed_after_duration(r: Seq<Option<DetectedItem>>, t: u64, times: Seq<u64>)
    requires
        clock_ok(t),
    ensures
        (forall|k: int| 0 <= k < times.len() ==> #[trigger] times[k] < t + DISPLAY_DURATION_MS)
            ==> idle_frames(showing(r, t), times) == showing(r, t),
        (exists|k: int| 0 <= k < times.len() && #[trigger] times[k] >= t + DISPLAY_DURATION_MS)
            ==> idle_frames(showing(r, t), times) == empty_model(),
    decreases times.len(),
{
    if times.len() > 0 {
        let front = times.drop_last();
        law_result_dismissed_after_duration(r, t, front);
        assert forall|k: int| 0 <= k < front.len() implies #[trigger] front[k] == times[k] by {}
        if exists|k: int| 0 <= k < times.len() && #[trigger] times[k] >= t + DISPLAY_DURATION_MS {
            let k: int = choose|k: int| 0 <= k < times.len() && #[trigger] times[k] >= t + DISPLAY_DURATION_MS;
            if k < front.len() {
                assert(front[k] >= t + DISPLAY_DURATION_MS);
            }
        }
        if forall|k: int| 0 <= k < times.len() ==> #[trigger] times[k] < t + DISPLAY_DURATION_MS {
            assert forall|k: int| 0 <= k < front.len() implies #[trigger] front[k] < t
                + DISPLAY_DURATION_MS by {
                assert(front[k] == times[k]);
            }
            assert(times[times.len() - 1] < t + DISPLAY_DURATION_MS);
        }
    }
}

/// Law: a notification is sent for a new result exactly when the result holds a
/// recognised item, and it lists every recognised item once.
pub proof fn law_notification_iff_recognized(idx: Seq<usize>, r: Seq<Option<DetectedItem>>)
    requires
        lists_recognized(idx, r),
    ensures
        idx.len() > 0 <==> exists|i: int| 0 <= i < r.len() && (#[trigger] r[i]) is Some,
        forall|k: int, l: int| 0 <= k < idx.len() && 0 <= l < idx.len() && k != l ==> idx[k] != idx[l],
{
    if idx.len() > 0 {
        assert(r[idx[0] as int] is Some);
    }
    assert forall|k: int, l: int| 0 <= k < idx.len() && 0 <= l < idx.len() && k != l implies idx[k]
        != idx[l] by {
        if k < l {
            assert(idx[k] < idx[l]);
        } else {
            assert(idx[l] < idx[k]);
        }
    }
}

/// Law: a result that arrives at `t` is still held, unchanged, by a later frame without a
/// new result that comes less than 30 seconds after `t`, and is gone from a frame that comes
/// 30 seconds or more after `t`.
pub proof fn law_thirty_seconds_on_screen(
    m: OverlayModel,
    r: Seq<Option<DetectedItem>>,
    t: u64,
    later: u64,
)
    requires
        t + 30_000 <= u64::MAX,
    ensures
        later < t + 30_000 ==> step(step(m, Some(r), t), None, later).result == r && step(
            step(m, Some(r), t),
            None,
            later,
        ).display_until == Some((t + 30_000) as u64),
        later >= t + 30_000 ==> step(step(m, Some(r), t), None, later).result.len() == 0 && step(
            step(m, Some(r), t),
            None,
            later,
        ).display_until is None,
{
}

/// Law: a frame draws a result only while its time is not up.
pub proof fn law_render_only_on_display(m: OverlayModel, received: Option<Seq<Option<DetectedItem>>>, now: u64)
    requires
        received is Some ==> clock_ok(now),
    ensures
        shows(step(m, received, now)) ==> (step(m, received, now).display_until matches Some(u)
            && now < u),
{
}

} // verus!
