//! The windows of a macOS desktop, and which of them the overlay follows.

use vstd::prelude::*;

use crate::decimal;
use crate::greatest;
use crate::ieee;
use crate::ieee::{Double, Single};
use crate::search;
use crate::text;

verus! {

/// The opacity up to which a window counts as invisible: the number nearest to
/// 0.01.
pub const INVISIBLE_ALPHA: u32 = 0x3c23_d70a;

/// The part of a monitor that a full screen window covers at least: the number
/// nearest to 0.88.
pub const MIN_MONITOR_COVERAGE: u32 = 0x3f61_47ae;

/// The part of a full screen window that lies on its monitor at least: 0.75.
pub const MIN_WINDOW_COVERAGE: u32 = 0x3f40_0000;

/// The least width of a full screen window, in widths of its monitor: the
/// number nearest to 0.88.
pub const MIN_WIDTH_RATIO: u32 = 0x3f61_47ae;

/// The least height of a full screen window, in heights of its monitor: the
/// number nearest to 0.84.
pub const MIN_HEIGHT_RATIO: u32 = 0x3f57_0a3d;

/// The constants for parts of a whole are the numbers that they are said to be.
pub proof fn lemma_thresholds()
    ensures
        ieee::is_nearest(Single { bits: INVISIBLE_ALPHA }, 1, 100),
        ieee::is_nearest(Single { bits: MIN_MONITOR_COVERAGE }, 88, 100),
        ieee::is_nearest(Single { bits: MIN_WINDOW_COVERAGE }, 75, 100),
        ieee::is_nearest(Single { bits: MIN_WIDTH_RATIO }, 88, 100),
        ieee::is_nearest(Single { bits: MIN_HEIGHT_RATIO }, 84, 100),
{
    vstd::arithmetic::power2::lemma2_to64();
    ieee::lemma_is_nearest(Single { bits: INVISIBLE_ALPHA }, 0xa3d70a, 120, 1, 100);
    ieee::lemma_is_nearest(Single { bits: MIN_MONITOR_COVERAGE }, 0xe147ae, 126, 88, 100);
    ieee::lemma_is_nearest(Single { bits: MIN_WINDOW_COVERAGE }, 0xc00000, 126, 75, 100);
    ieee::lemma_is_nearest(Single { bits: MIN_HEIGHT_RATIO }, 0xd70a3d, 126, 84, 100);
}

/// A rectangle on the desktop, its corner at the top left.
#[derive(Clone, Copy, Debug, PartialEq, Eq, Structural)]
pub struct MacWindowBounds {
    pub x: Single,
    pub y: Single,
    pub width: Single,
    pub height: Single,
}

/// A window that the overlay can follow.
#[derive(Debug)]
pub struct MacTrackedWindow {
    pub window_id: u32,
    pub owner_pid: i32,
    pub owner_name: String,
    pub window_name: Option<String>,
    pub bounds: MacWindowBounds,
}

impl Clone for MacTrackedWindow {
    fn clone(&self) -> (r: Self)
        ensures
            r == *self,
    {
        MacTrackedWindow {
            window_id: self.window_id,
            owner_pid: self.owner_pid,
            owner_name: self.owner_name.clone(),
            window_name: match &self.window_name {
                Some(name) => Some(name.clone()),
                None => None,
            },
            bounds: self.bounds,
        }
    }
}

/// What the system says of a window; what it does not say is missing.
#[derive(Debug)]
pub struct WindowInfo {
    pub window_id: Option<u32>,
    pub owner_pid: Option<i32>,
    pub layer: Option<i32>,
    pub alpha: Option<Single>,
    pub onscreen: Option<bool>,
    pub bounds: Option<MacWindowBounds>,
    pub owner_name: Option<String>,
    pub window_name: Option<String>,
}

/// `v` is a number below `n`.
pub open spec fn below(v: Single, n: int) -> bool {
    !v.nan() && v.value() < Single::units(n)
}

/// The window is large enough to be followed.
pub open spec fn large_enough(bounds: MacWindowBounds) -> bool {
    !below(bounds.width, 160) && !below(bounds.height, 90)
}

/// The window can be seen through so far that it does not count.
pub open spec fn invisible(alpha: Option<Single>) -> bool {
    alpha matches Some(a) && !a.nan() && a.value() <= (Single { bits: INVISIBLE_ALPHA }).value()
}

/// The window can be followed: what is needed of it is known, it is on the
/// screen on an ordinary layer or above, and it is visible and large enough.
pub open spec fn can_be_followed(info: WindowInfo) -> bool {
    &&& info.window_id is Some
    &&& info.owner_pid is Some
    &&& info.layer matches Some(layer) && layer >= 0
    &&& !invisible(info.alpha)
    &&& info.onscreen != Some(false)
    &&& info.bounds matches Some(b) && large_enough(b)
}

/// The name of a window, where it is not blank.
pub open spec fn spoken_name(name: Option<String>) -> Option<Seq<char>> {
    match name {
        Some(s) => if text::trimmed(s@).len() > 0 {
            Some(s@)
        } else {
            None
        },
        None => None,
    }
}

/// A name where it is not blank.
fn unless_blank(name: Option<String>) -> (r: Option<String>)
    ensures
        text::view_option(r) == spoken_name(name),
{
    if let Some(s) = name {
        if text::trim(s.as_str()).unicode_len() > 0 {
            return Some(s);
        }
    }
    None
}

/// The window that `info` describes, where it can be followed.
pub fn macos_window_from_info(info: WindowInfo) -> (r: Option<MacTrackedWindow>)
    ensures
        r is Some <==> can_be_followed(info),
        r matches Some(w) ==> {
            &&& info.window_id == Some(w.window_id)
            &&& info.owner_pid == Some(w.owner_pid)
            &&& w.owner_name@ == (match info.owner_name {
                Some(s) => s@,
                None => "pid-"@ + decimal::decimal(w.owner_pid as int),
            })
            &&& text::view_option(w.window_name) == spoken_name(info.window_name)
            &&& info.bounds == Some(w.bounds)
        },
{
    let (window_id, owner_pid, layer, bounds) = match (
        info.window_id,
        info.owner_pid,
        info.layer,
        info.bounds,
    ) {
        (Some(a), Some(b), Some(c), Some(d)) => (a, b, c, d),
        _ => return None,
    };
    let hidden = match info.onscreen {
        Some(b) => !b,
        None => false,
    };
    let unseen = match info.alpha {
        Some(a) => a.le(Single { bits: INVISIBLE_ALPHA }),
        None => false,
    };
    if hidden || layer < 0 || unseen {
        return None;
    }
    if bounds.width.lt(Single::whole(160)) || bounds.height.lt(Single::whole(90)) {
        return None;
    }
    let owner_name = match info.owner_name {
        Some(s) => s,
        None => {
            let mut s = "pid-".to_owned();
            decimal::append_i32(&mut s, owner_pid);
            s
        },
    };
    let window_name = unless_blank(info.window_name);
    Some(MacTrackedWindow { window_id, owner_pid, owner_name, window_name, bounds })
}

/// A window that is a candidate, with its area and with how far its bounds are
/// from those that are looked for.
#[derive(Debug)]
pub struct Candidate {
    pub window: MacTrackedWindow,
    pub area: Single,
    pub distance: Single,
}

/// The area of a window of the process `pid`.
pub open spec fn area_of(pid: i32) -> spec_fn(Candidate) -> Option<Single> {
    |c: Candidate|
        if c.window.owner_pid == pid {
            Some(c.area)
        } else {
            None
        }
}

/// The largest window of the process `pid`.
pub open spec fn largest_of(windows: Seq<Candidate>, pid: i32) -> Option<int> {
    greatest::greatest(windows, area_of(pid))
}

/// The window at a place in the list.
pub open spec fn window_at(windows: Seq<Candidate>, place: Option<int>) -> Option<
    MacTrackedWindow,
> {
    match place {
        Some(i) => Some(windows[i].window),
        None => None,
    }
}

/// The largest window of the process `pid`, the first of equal ones.
pub fn macos_pick_best_window_for_pid(windows: &Vec<Candidate>, pid: i32) -> (r: Option<
    MacTrackedWindow,
>)
    ensures
        r == window_at(windows@, largest_of(windows@, pid)),
{
    let ghost size = area_of(pid);
    let mut best: Option<usize> = None;
    let mut best_area = Single::whole(0);
    let mut i: usize = 0;
    proof {
        assert(Single::units(0) == 0) by (nonlinear_arith);
    }
    while i < windows.len()
        invariant
            i <= windows.len(),
            size == area_of(pid),
            !best_area.nan(),
            best_area.value() >= 0,
            match best {
                Some(k) => k < i && size(windows@[k as int]) == Some(best_area) && greatest::leads(
                    windows@,
                    size,
                    k as int,
                    i as int,
                ),
                None => best_area.value() == 0 && forall|j: int|
                    0 <= j < i ==> (size(#[trigger] windows@[j]) matches Some(w)
                        ==> !greatest::counts(w)),
            },
        decreases windows.len() - i,
    {
        let c = &windows[i];
        assert(size(windows@[i as int]) == (if c.window.owner_pid == pid {
            Some(c.area)
        } else {
            None
        }));
        if c.window.owner_pid == pid && best_area.lt(c.area) {
            best_area = c.area;
            best = Some(i);
        }
        i = i + 1;
    }
    match best {
        Some(k) => {
            proof {
                greatest::lemma_greatest_is(windows@, size, k as int);
            }
            Some(windows[k].window.clone())
        },
        None => None,
    }
}

/// The first window with the identifier `window_id`.
pub open spec fn with_id(windows: Seq<Candidate>, window_id: u32) -> Option<int> {
    search::first_where(windows, |c: Candidate| c.window.window_id == window_id)
}

/// The first window of another process than `pid`.
pub open spec fn first_foreign(windows: Seq<Candidate>, pid: i32) -> Option<int> {
    search::first_where(windows, |c: Candidate| c.window.owner_pid != pid)
}

/// The window with the identifier `window_id`.
pub fn macos_find_window_by_id(windows: &Vec<Candidate>, window_id: u32) -> (r: Option<
    MacTrackedWindow,
>)
    ensures
        r == window_at(windows@, with_id(windows@, window_id)),
{
    let ghost p = |c: Candidate| c.window.window_id == window_id;
    let mut i: usize = 0;
    while i < windows.len()
        invariant
            i <= windows.len(),
            p == (|c: Candidate| c.window.window_id == window_id),
            search::first_where(windows@, p) == search::first_from(windows@, p, i as int),
        decreases windows.len() - i,
    {
        if windows[i].window.window_id == window_id {
            return Some(windows[i].window.clone());
        }
        i = i + 1;
    }
    None
}

/// The first window of another process than `exclude_pid`.
pub fn macos_pick_first_external_window(windows: &Vec<Candidate>, exclude_pid: i32) -> (r: Option<
    MacTrackedWindow,
>)
    ensures
        r == window_at(windows@, first_foreign(windows@, exclude_pid)),
{
    let ghost p = |c: Candidate| c.window.owner_pid != exclude_pid;
    let mut i: usize = 0;
    while i < windows.len()
        invariant
            i <= windows.len(),
            p == (|c: Candidate| c.window.owner_pid != exclude_pid),
            search::first_where(windows@, p) == search::first_from(windows@, p, i as int),
        decreases windows.len() - i,
    {
        if windows[i].window.owner_pid != exclude_pid {
            return Some(windows[i].window.clone());
        }
        i = i + 1;
    }
    None
}

/// Whether a window lacks the title that is looked for.
pub open spec fn title_mismatch(wanted: Option<Seq<char>>, c: Candidate) -> bool {
    wanted matches Some(title) && text::view_option(c.window.window_name) != Some(title)
}

/// `a` matches better than `b`: by its title, else by being nearer.
pub open spec fn better_match(wanted: Option<Seq<char>>, a: Candidate, b: Candidate) -> bool {
    if title_mismatch(wanted, a) == title_mismatch(wanted, b) {
        !a.distance.nan() && !b.distance.nan() && a.distance.value() < b.distance.value()
    } else {
        title_mismatch(wanted, b)
    }
}

/// The window of the process `pid` among the first `n` that matches best: each
/// one in its turn takes the place of a worse one.
pub open spec fn best_match_of_first(
    windows: Seq<Candidate>,
    pid: i32,
    wanted: Option<Seq<char>>,
    n: int,
) -> Option<int>
    decreases n,
{
    if n <= 0 {
        None
    } else {
        let best = best_match_of_first(windows, pid, wanted, n - 1);
        if windows[n - 1].window.owner_pid != pid {
            best
        } else {
            match best {
                Some(k) => if better_match(wanted, windows[n - 1], windows[k]) {
                    Some(n - 1)
                } else {
                    Some(k)
                },
                None => Some(n - 1),
            }
        }
    }
}

/// The window of the process `pid` that matches best.
pub open spec fn best_match(
    windows: Seq<Candidate>,
    pid: i32,
    wanted: Option<Seq<char>>,
) -> Option<int> {
    best_match_of_first(windows, pid, wanted, windows.len() as int)
}

fn lacks_title(wanted: &Option<String>, c: &Candidate) -> (r: bool)
    ensures
        r == title_mismatch(text::view_option(*wanted), *c),
{
    match (wanted, &c.window.window_name) {
        (Some(title), Some(name)) => !text::same_text(title.as_str(), name.as_str()),
        (Some(_), None) => true,
        (None, _) => false,
    }
}

/// The window of the process `owner_pid` whose title is the wanted one, else
/// any window of that process, and of several the one nearest to the bounds
/// that are looked for.
pub fn macos_pick_window_matching_target(
    windows: &Vec<Candidate>,
    owner_pid: i32,
    target_title: &Option<String>,
) -> (r: Option<MacTrackedWindow>)
    ensures
        r == window_at(
            windows@,
            best_match(windows@, owner_pid, text::view_option(*target_title)),
        ),
{
    let ghost wanted = text::view_option(*target_title);
    let mut best: Option<usize> = None;
    let mut i: usize = 0;
    while i < windows.len()
        invariant
            i <= windows.len(),
            wanted == text::view_option(*target_title),
            match best {
                Some(k) => k < i && best_match_of_first(windows@, owner_pid, wanted, i as int)
                    == Some(k as int),
                None => best_match_of_first(windows@, owner_pid, wanted, i as int) is None,
            },
        decreases windows.len() - i,
    {
        let c = &windows[i];
        if c.window.owner_pid == owner_pid {
            let better = match best {
                Some(k) => {
                    let b = &windows[k];
                    let a_lacks = lacks_title(target_title, c);
                    let b_lacks = lacks_title(target_title, b);
                    if a_lacks == b_lacks {
                        c.distance.lt(b.distance)
                    } else {
                        b_lacks
                    }
                },
                None => true,
            };
            if better {
                best = Some(i);
            }
        }
        i = i + 1;
    }
    match best {
        Some(k) => Some(windows[k].window.clone()),
        None => None,
    }
}

/// The window that has the focus, as the accessibility interface describes it.
#[derive(Debug)]
pub struct FocusedWindow {
    pub owner_pid: i32,
    pub width: Double,
    pub height: Double,
    pub title: Option<String>,
}

/// The window with the focus is too small to be followed.
pub open spec fn too_small(focused: FocusedWindow) -> bool {
    ||| !focused.width.nan() && focused.width.value() < Double::units(160)
    ||| !focused.height.nan() && focused.height.value() < Double::units(90)
}

/// The listed window that is the one with the focus: the best match, else the
/// largest window of the same process under the title that has the focus. A
/// window that is too small is not followed.
pub fn macos_pick_accessibility_focused_window(
    focused: FocusedWindow,
    windows: &Vec<Candidate>,
) -> (r: Option<MacTrackedWindow>)
    ensures
        ({
            let title = spoken_name(focused.title);
            let pid = focused.owner_pid;
            if too_small(focused) {
                r is None
            } else if best_match(windows@, pid, title) is Some {
                r == window_at(windows@, best_match(windows@, pid, title))
            } else {
                match largest_of(windows@, pid) {
                    Some(i) => r matches Some(w) && renamed(windows@[i].window, title, w),
                    None => r is None,
                }
            }
        }),
{
    if focused.width.lt(Double::whole(160)) || focused.height.lt(Double::whole(90)) {
        return None;
    }
    let title = unless_blank(focused.title);
    if let Some(w) = macos_pick_window_matching_target(windows, focused.owner_pid, &title) {
        return Some(w);
    }
    match macos_pick_best_window_for_pid(windows, focused.owner_pid) {
        Some(w) => Some(
            MacTrackedWindow {
                window_id: w.window_id,
                owner_pid: w.owner_pid,
                owner_name: w.owner_name,
                window_name: title,
                bounds: w.bounds,
            },
        ),
        None => None,
    }
}

/// `b` is `a` under the name `name`.
pub open spec fn renamed(a: MacTrackedWindow, name: Option<Seq<char>>, b: MacTrackedWindow) -> bool {
    &&& text::view_option(b.window_name) == name
    &&& b == (MacTrackedWindow { window_name: b.window_name, ..a })
}

proof fn lemma_best_match_of_first(
    windows: Seq<Candidate>,
    pid: i32,
    wanted: Option<Seq<char>>,
    n: int,
)
    requires
        0 <= n <= windows.len(),
        forall|i: int| 0 <= i < windows.len() ==> !(#[trigger] windows[i]).distance.nan(),
    ensures
        match best_match_of_first(windows, pid, wanted, n) {
            Some(k) => {
                &&& 0 <= k < n
                &&& windows[k].window.owner_pid == pid
                &&& forall|j: int|
                    0 <= j < n && (#[trigger] windows[j]).window.owner_pid == pid ==> {
                        &&& !better_match(wanted, windows[j], windows[k])
                        &&& j < k ==> better_match(wanted, windows[k], windows[j])
                    }
            },
            None => forall|j: int|
                0 <= j < n ==> (#[trigger] windows[j]).window.owner_pid != pid,
        },
    decreases n,
{
    if n > 0 {
        lemma_best_match_of_first(windows, pid, wanted, n - 1);
    }
}

/// Where every distance is a number, the best match is a window of the process
/// that no other one of it surpasses, and the first of equal ones; there is one
/// unless the process has no window.
pub proof fn lemma_best_match(windows: Seq<Candidate>, pid: i32, wanted: Option<Seq<char>>)
    requires
        forall|i: int| 0 <= i < windows.len() ==> !(#[trigger] windows[i]).distance.nan(),
    ensures
        match best_match(windows, pid, wanted) {
            Some(k) => {
                &&& 0 <= k < windows.len()
                &&& windows[k].window.owner_pid == pid
                &&& forall|j: int|
                    0 <= j < windows.len() && (#[trigger] windows[j]).window.owner_pid == pid
                        ==> {
                        &&& !better_match(wanted, windows[j], windows[k])
                        &&& j < k ==> better_match(wanted, windows[k], windows[j])
                    }
            },
            None => forall|j: int|
                0 <= j < windows.len() ==> (#[trigger] windows[j]).window.owner_pid != pid,
        },
{
    lemma_best_match_of_first(windows, pid, wanted, windows.len() as int);
}

/// A window is followed unless its identifier, its process, its layer or its
/// bounds are unknown, its layer is below the ordinary ones, it is said to be
/// off the screen or to be invisible, or it is less than 160 pixels wide or less
/// than 90 pixels high. What is not said of opacity and screen does not count
/// against it.
pub proof fn lemma_which_windows_can_be_followed(info: WindowInfo)
    ensures
        can_be_followed(info) <==> {
            &&& info.window_id is Some
            &&& info.owner_pid is Some
            &&& info.layer is Some
            &&& info.bounds is Some
            &&& info.layer.unwrap() >= 0
            &&& info.onscreen is None || info.onscreen.unwrap()
            &&& info.alpha is None || info.alpha.unwrap().nan() || info.alpha.unwrap().value() > (
            Single { bits: INVISIBLE_ALPHA }).value()
            &&& info.bounds.unwrap().width.nan() || info.bounds.unwrap().width.value()
                >= Single::units(160)
            &&& info.bounds.unwrap().height.nan() || info.bounds.unwrap().height.value()
                >= Single::units(90)
        },
{
}

/// The names of a window and of its process do not decide on whether it can be
/// followed.
pub proof fn lemma_names_do_not_matter(a: WindowInfo, b: WindowInfo)
    requires
        b == (WindowInfo { owner_name: b.owner_name, window_name: b.window_name, ..a }),
    ensures
        can_be_followed(a) == can_be_followed(b),
{
}

/// A name counts as it is unless all of it is white space.
pub proof fn lemma_spoken_name(name: Option<String>)
    ensures
        match name {
            Some(s) => if forall|i: int| 0 <= i < s@.len() ==> text::is_white(#[trigger] s@[i]) {
                spoken_name(name) is None
            } else {
                spoken_name(name) == Some(s@)
            },
            None => spoken_name(name) is None,
        },
{
    if let Some(s) = name {
        text::lemma_trimmed_empty(s@);
    }
}

/// The window that is picked for a process is one of its windows, with a
/// positive area that no other window of the process exceeds and none ahead of
/// it reaches. One is picked wherever the process has a window of a positive
/// area.
pub proof fn lemma_largest_window(windows: Seq<Candidate>, pid: i32)
    ensures
        ({
            let shown = |i: int|
                0 <= i < windows.len() && windows[i].window.owner_pid == pid
                    && !windows[i].area.nan() && windows[i].area.value() > 0;
            match largest_of(windows, pid) {
                Some(i) => shown(i) && (forall|j: int|
                    #[trigger] shown(j) ==> windows[j].area.value() <= windows[i].area.value() && (
                    j < i ==> windows[j].area.value() < windows[i].area.value())) && window_at(
                    windows,
                    Some(i),
                ) == Some(windows[i].window),
                None => (forall|j: int| !#[trigger] shown(j)) && window_at(windows, None) is None,
            }
        }),
{
    let shown = |i: int|
        0 <= i < windows.len() && windows[i].window.owner_pid == pid && !windows[i].area.nan()
            && windows[i].area.value() > 0;
    let size = area_of(pid);
    greatest::lemma_greatest(windows, size);
    match largest_of(windows, pid) {
        Some(i) => {
            assert(size(windows[i]) is Some);
            assert forall|j: int| #[trigger] shown(j) implies windows[j].area.value()
                <= windows[i].area.value() && (j < i ==> windows[j].area.value()
                < windows[i].area.value()) by {
                assert(size(windows[j]) is Some);
            }
        },
        None => {
            assert forall|j: int| !#[trigger] shown(j) by {
                if shown(j) {
                    assert(size(windows[j]) is Some);
                }
            }
        },
    }
}

/// A window is found by its identifier wherever one with it is listed, and the
/// first such one. Likewise the first window of another process.
pub proof fn lemma_first_windows(windows: Seq<Candidate>, window_id: u32, pid: i32)
    ensures
        match with_id(windows, window_id) {
            Some(i) => 0 <= i < windows.len() && windows[i].window.window_id == window_id && (
            forall|j: int|
                0 <= j < i ==> (#[trigger] windows[j]).window.window_id != window_id),
            None => forall|j: int|
                0 <= j < windows.len() ==> (#[trigger] windows[j]).window.window_id != window_id,
        },
        match first_foreign(windows, pid) {
            Some(i) => 0 <= i < windows.len() && windows[i].window.owner_pid != pid && (forall|
                j: int,
            |
                0 <= j < i ==> (#[trigger] windows[j]).window.owner_pid == pid),
            None => forall|j: int|
                0 <= j < windows.len() ==> (#[trigger] windows[j]).window.owner_pid == pid,
        },
{
    search::lemma_first_where(windows, |c: Candidate| c.window.window_id == window_id);
    search::lemma_first_where(windows, |c: Candidate| c.window.owner_pid != pid);
}

proof fn lemma_title_first(
    windows: Seq<Candidate>,
    pid: i32,
    wanted: Option<Seq<char>>,
    n: int,
)
    requires
        0 <= n <= windows.len(),
    ensures
        match best_match_of_first(windows, pid, wanted, n) {
            Some(k) => {
                &&& 0 <= k < n
                &&& windows[k].window.owner_pid == pid
                &&& title_mismatch(wanted, windows[k]) ==> forall|j: int|
                    0 <= j < n && (#[trigger] windows[j]).window.owner_pid == pid
                        ==> title_mismatch(wanted, windows[j])
            },
            None => forall|j: int|
                0 <= j < n ==> (#[trigger] windows[j]).window.owner_pid != pid,
        },
    decreases n,
{
    if n > 0 {
        lemma_title_first(windows, pid, wanted, n - 1);
    }
}

/// The window that is taken for the one with the focus is a window of that
/// process, and there is one wherever the process has a window. It bears the
/// title that is looked for wherever a window of the process bears it.
pub proof fn lemma_title_decides_first(
    windows: Seq<Candidate>,
    pid: i32,
    title: Seq<char>,
    wanted: Option<Seq<char>>,
)
    ensures
        match best_match(windows, pid, wanted) {
            Some(k) => 0 <= k < windows.len() && windows[k].window.owner_pid == pid,
            None => forall|j: int|
                0 <= j < windows.len() ==> (#[trigger] windows[j]).window.owner_pid != pid,
        },
        (exists|j: int|
            0 <= j < windows.len() && (#[trigger] windows[j]).window.owner_pid == pid
                && text::view_option(windows[j].window.window_name) == Some(title)) ==> (best_match(
            windows,
            pid,
            Some(title),
        ) matches Some(k) && text::view_option(windows[k].window.window_name) == Some(title)),
{
    let n = windows.len() as int;
    lemma_title_first(windows, pid, wanted, n);
    lemma_title_first(windows, pid, Some(title), n);
    if exists|j: int|
        0 <= j < windows.len() && (#[trigger] windows[j]).window.owner_pid == pid
            && text::view_option(windows[j].window.window_name) == Some(title) {
        let j = choose|j: int|
            0 <= j < windows.len() && (#[trigger] windows[j]).window.owner_pid == pid
                && text::view_option(windows[j].window.window_name) == Some(title);
        assert(!title_mismatch(Some(title), windows[j]));
    }
}

/// Of the windows of the process that bear the title like the one that is taken,
/// or lack it like that one, none is nearer, and none ahead of it as near. Where
/// no title is looked for, that holds of all windows of the process.
pub proof fn lemma_nearest_of_equal_titles(
    windows: Seq<Candidate>,
    pid: i32,
    wanted: Option<Seq<char>>,
    j: int,
)
    requires
        forall|i: int| 0 <= i < windows.len() ==> !(#[trigger] windows[i]).distance.nan(),
        0 <= j < windows.len(),
        windows[j].window.owner_pid == pid,
    ensures
        best_match(windows, pid, wanted) matches Some(k) && {
            let bears = |i: int|
                wanted is None || text::view_option(windows[i].window.window_name) == wanted;
            &&& bears(j) == bears(k) ==> windows[k].distance.value() <= windows[j].distance.value()
            &&& bears(j) == bears(k) && j < k ==> windows[k].distance.value()
                < windows[j].distance.value()
            &&& bears(j) ==> bears(k)
        },
{
    lemma_best_match(windows, pid, wanted);
    let k = best_match(windows, pid, wanted).unwrap();
    assert(!better_match(wanted, windows[j], windows[k]));
}

/// The window with the focus is too small exactly where it is less than 160
/// wide or less than 90 high.
pub proof fn lemma_too_small(focused: FocusedWindow)
    ensures
        too_small(focused) <==> (!focused.width.nan() && focused.width.value() < Double::units(160)
            || !focused.height.nan() && focused.height.value() < Double::units(90)),
{
}

/// A window under another name is the same window but for the name.
pub proof fn lemma_renamed(a: MacTrackedWindow, name: Option<Seq<char>>, b: MacTrackedWindow)
    requires
        renamed(a, name, b),
    ensures
        text::view_option(b.window_name) == name,
        b.window_id == a.window_id,
        b.owner_pid == a.owner_pid,
        b.owner_name == a.owner_name,
        b.bounds == a.bounds,
{
}

proof fn lemma_earlier_windows(
    windows: Seq<Candidate>,
    c: Candidate,
    pid: i32,
    wanted: Option<Seq<char>>,
    n: int,
)
    requires
        0 <= n <= windows.len(),
    ensures
        best_match_of_first(windows.push(c), pid, wanted, n) == best_match_of_first(
            windows,
            pid,
            wanted,
            n,
        ),
        best_match_of_first(windows, pid, wanted, n) matches Some(k) ==> 0 <= k < n,
    decreases n,
{
    if n > 0 {
        lemma_earlier_windows(windows, c, pid, wanted, n - 1);
        assert(windows.push(c)[n - 1] == windows[n - 1]);
    }
}

/// One window more is taken instead of the one that was the best so far exactly
/// where it belongs to the process and either there was none, or it alone bears
/// the title that is looked for, or both bear it or both lack it and the new one
/// is known to be nearer.
pub proof fn lemma_one_window_more(
    windows: Seq<Candidate>,
    c: Candidate,
    pid: i32,
    wanted: Option<Seq<char>>,
)
    ensures
        ({
            let before = best_match(windows, pid, wanted);
            let after = best_match(windows.push(c), pid, wanted);
            let bears = |d: Candidate|
                wanted is None || text::view_option(d.window.window_name) == wanted;
            &&& c.window.owner_pid != pid ==> after == before
            &&& c.window.owner_pid == pid ==> match before {
                None => after == Some(windows.len() as int),
                Some(k) => {
                    let b = windows[k];
                    let nearer = !c.distance.nan() && !b.distance.nan() && c.distance.value()
                        < b.distance.value();
                    if (bears(c) && !bears(b)) || (bears(c) == bears(b) && nearer) {
                        after == Some(windows.len() as int)
                    } else {
                        after == before
                    }
                },
            }
        }),
        best_match(Seq::empty(), pid, wanted) is None,
{
    let n = windows.len() as int;
    lemma_earlier_windows(windows, c, pid, wanted, n);
    assert(windows.push(c)[n] == c);
    if let Some(k) = best_match(windows, pid, wanted) {
        assert(windows.push(c)[k] == windows[k]);
    }
}

} // verus!
