//! Choosing the game's window among the windows on the desktop.
use vstd::prelude::*;

verus! {

/// What the choice needs to know of a window on the desktop.
#[derive(Debug, Clone, PartialEq, Eq)]
pub struct WindowInfo {
    pub title: String,
    pub width: u32,
    pub height: u32,
}

/// The area of a window in pixels.
pub open spec fn area(w: WindowInfo) -> int {
    w.width as int * w.height as int
}

/// The window at position `i` has the title looked for.
pub open spec fn titled(windows: Seq<WindowInfo>, name: Seq<char>, i: int) -> bool {
    0 <= i < windows.len() && windows[i].title@ == name
}

/// The window at position `i` is the one to use: it has the title looked for and the
/// largest area among those that have it, and is the last of those with that area.
/// The largest is taken so that a small launcher window with the same title is passed over.
pub open spec fn is_game_window(windows: Seq<WindowInfo>, name: Seq<char>, i: int) -> bool {
    &&& titled(windows, name, i)
    &&& forall|j: int| #[trigger] titled(windows, name, j) ==> area(windows[j]) <= area(windows[i])
    &&& forall|j: int| i < j && #[trigger] titled(windows, name, j) ==> area(windows[j]) < area(windows[i])
}

/// The area of a window.
pub fn window_area(w: &WindowInfo) -> (a: u64)
    ensures
        a == area(*w),
        a == w.width as int * w.height as int,
{
    assert(w.width as int * w.height as int <= u64::MAX) by (nonlinear_arith)
        requires
            0 <= w.width <= 0xffff_ffff,
            0 <= w.height <= 0xffff_ffff,
    ;
    (w.width as u64) * (w.height as u64)
}

/// The position of the game's window among `windows`, or `None` when no window has the
/// title `name`.
pub fn find_game_window(windows: &Vec<WindowInfo>, name: &String) -> (r: Option<usize>)
    ensures
        r is None <==> (forall|i: int| !titled(windows@, name@, i)),
        r matches Some(i) ==> is_game_window(windows@, name@, i as int),
        r matches Some(i) ==> i < windows.len() && windows@[i as int].title@ == name@,
        r is None <==> (forall|i: int| 0 <= i < windows.len() ==> (#[trigger] windows@[i]).title@ != name@),
        r matches Some(i) ==> forall|j: int|
            0 <= j < windows.len() && (#[trigger] windows@[j]).title@ == name@ ==> windows@[j].width as int
                * windows@[j].height as int <= windows@[i as int].width as int
                * windows@[i as int].height as int,
{
    let n: usize = windows.len();
    let mut best: Option<usize> = None;
    let mut best_area: u64 = 0;
    for j in 0..n
        invariant
            n == windows.len(),
            best is None ==> forall|k: int| 0 <= k < j ==> !titled(windows@, name@, k),
            best matches Some(b) ==> {
                &&& b < j
                &&& titled(windows@, name@, b as int)
                &&& best_area == area(windows@[b as int])
                &&& forall|k: int| 0 <= k < j && #[trigger] titled(windows@, name@, k) ==> area(
                    windows@[k],
                ) <= best_area
                &&& forall|k: int| b < k < j && #[trigger] titled(windows@, name@, k) ==> area(
                    windows@[k],
                ) < best_area
            },
    {
        if windows[j].title == *name {
            let a: u64 = window_area(&windows[j]);
            let take = match best {
                None => true,
                Some(_) => a >= best_area,
            };
            if take {
                best = Some(j);
                best_area = a;
            }
        }
    }
    proof {
        law_game_window_exact_title(windows@, name@);
        if best is Some {
            let b: usize = best->0;
            assert forall|j: int| #[trigger] titled(windows@, name@, j) implies area(windows@[j]) <= area(
                windows@[b as int],
            ) by {}
        }
    }
    best
}

/// Law: the window chosen has exactly the title looked for (not merely one that contains
/// or ends with it) and is at least as large as every window with exactly that title; when
/// no window has exactly that title, none is chosen.
pub proof fn law_game_window_exact_title(windows: Seq<WindowInfo>, name: Seq<char>)
    ensures
        forall|i: int| #[trigger] is_game_window(windows, name, i) ==> 0 <= i < windows.len()
            && windows[i].title@ == name && forall|j: int|
            0 <= j < windows.len() && (#[trigger] windows[j]).title@ == name ==> windows[j].width as int
                * windows[j].height as int <= windows[i].width as int * windows[i].height as int,
        (forall|i: int| 0 <= i < windows.len() ==> (#[trigger] windows[i]).title@ != name) ==> forall|i: int|
            !#[trigger] titled(windows, name, i),
        forall|i: int| 0 <= i < windows.len() && (#[trigger] windows[i]).title@ == name ==> titled(windows, name, i),
{
    assert forall|i: int| #[trigger] is_game_window(windows, name, i) implies 0 <= i < windows.len()
        && windows[i].title@ == name && forall|j: int|
        0 <= j < windows.len() && (#[trigger] windows[j]).title@ == name ==> windows[j].width as int
            * windows[j].height as int <= windows[i].width as int * windows[i].height as int by {
        assert forall|j: int| 0 <= j < windows.len() && (#[trigger] windows[j]).title@ == name implies windows[j].width as int
            * windows[j].height as int <= windows[i].width as int * windows[i].height as int by {
            assert(titled(windows, name, j));
        }
    }
}

} // verus!
