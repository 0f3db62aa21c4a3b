//! Following a window from one look at the desktop to the next.

use vstd::prelude::*;

use crate::config::OverlayAttachMode;
use crate::greatest;
use crate::ieee::Single;
use crate::search;
use crate::windows;
use crate::windows::{Candidate, MacTrackedWindow, MacWindowBounds};

verus! {

/// What is kept while windows are followed: the process of the overlay itself,
/// whose windows are never followed, and the window that was followed last.
#[derive(Clone, Copy, Debug, PartialEq, Eq, Structural)]
pub struct MacWindowTracker {
    pub own_pid: i32,
    pub last_window_id: Option<u32>,
}

/// The window that is in front: the one with the focus, else the largest one of
/// the process in front, unless it belongs to the overlay itself.
pub open spec fn frontmost(
    own_pid: i32,
    frontmost_pid: Option<i32>,
    focused: Option<MacTrackedWindow>,
    list: Seq<Candidate>,
) -> Option<MacTrackedWindow> {
    match focused {
        Some(w) if w.owner_pid != own_pid => Some(w),
        _ => match frontmost_pid {
            Some(pid) if pid != own_pid => windows::window_at(
                list,
                windows::largest_of(list, pid),
            ),
            _ => None,
        },
    }
}

/// What is kept after `target` was found in front.
pub open spec fn after_look(
    tracker: MacWindowTracker,
    target: Option<MacTrackedWindow>,
) -> MacWindowTracker {
    MacWindowTracker {
        own_pid: tracker.own_pid,
        last_window_id: match target {
            Some(w) => Some(w.window_id),
            None => tracker.last_window_id,
        },
    }
}

/// The window to follow: the one in front, else the last one, else the first
/// one of another process.
pub open spec fn target(
    tracker: MacWindowTracker,
    front: Option<MacTrackedWindow>,
    list: Seq<Candidate>,
) -> Option<MacTrackedWindow> {
    let last = match tracker.last_window_id {
        Some(id) => windows::window_at(list, windows::with_id(list, id)),
        None => None,
    };
    match front {
        Some(w) => Some(w),
        None => match last {
            Some(w) => Some(w),
            None => windows::window_at(list, windows::first_foreign(list, tracker.own_pid)),
        },
    }
}

impl MacWindowTracker {
    /// A tracker for the process `own_pid` that has followed no window yet.
    pub fn new(own_pid: i32) -> (r: Self)
        ensures
            r == (MacWindowTracker { own_pid, last_window_id: None }),
    {
        MacWindowTracker { own_pid, last_window_id: None }
    }

    /// The window in front, which becomes the last one that was followed.
    pub fn poll_frontmost_candidate(
        &mut self,
        frontmost_pid: Option<i32>,
        focused: Option<MacTrackedWindow>,
        list: &Vec<Candidate>,
    ) -> (r: Option<MacTrackedWindow>)
        ensures
            r == frontmost(old(self).own_pid, frontmost_pid, focused, list@),
            *final(self) == after_look(*old(self), r),
    {
        if let Some(w) = focused {
            if w.owner_pid != self.own_pid {
                self.last_window_id = Some(w.window_id);
                return Some(w);
            }
        }
        if let Some(pid) = frontmost_pid {
            if pid != self.own_pid {
                let found = windows::macos_pick_best_window_for_pid(list, pid);
                if let Some(w) = &found {
                    self.last_window_id = Some(w.window_id);
                }
                return found;
            }
        }
        None
    }

    /// The window to follow.
    pub fn poll_target(
        &mut self,
        frontmost_pid: Option<i32>,
        focused: Option<MacTrackedWindow>,
        list: &Vec<Candidate>,
    ) -> (r: Option<MacTrackedWindow>)
        ensures
            ({
                let front = frontmost(old(self).own_pid, frontmost_pid, focused, list@);
                &&& r == target(*old(self), front, list@)
                &&& *final(self) == after_look(*old(self), front)
            }),
    {
        if let Some(w) = self.poll_frontmost_candidate(frontmost_pid, focused, list) {
            return Some(w);
        }
        if let Some(id) = self.last_window_id {
            if let Some(w) = windows::macos_find_window_by_id(list, id) {
                return Some(w);
            }
        }
        windows::macos_pick_first_external_window(list, self.own_pid)
    }

    /// What the overlay is to cover: a window as it is, or a window that is
    /// still to be fitted to its monitor.
    pub fn poll_overlay_target(
        &mut self,
        attach_mode: OverlayAttachMode,
        frontmost_pid: Option<i32>,
        focused: Option<MacTrackedWindow>,
        list: &Vec<Candidate>,
    ) -> (r: OverlayTarget)
        ensures
            ({
                let front = frontmost(old(self).own_pid, frontmost_pid, focused, list@);
                match attach_mode {
                    OverlayAttachMode::Monitor => r is Nothing && *final(self) == *old(self),
                    OverlayAttachMode::FrontmostWindow => {
                        &&& r == (match target(*old(self), front, list@) {
                            Some(w) => OverlayTarget::Follow { window: w },
                            None => OverlayTarget::Nothing,
                        })
                        &&& *final(self) == after_look(*old(self), front)
                    },
                    OverlayAttachMode::FullscreenWindow => {
                        &&& r == (match front {
                            Some(w) => OverlayTarget::FitToMonitor { window: w },
                            None => OverlayTarget::Nothing,
                        })
                        &&& *final(self) == after_look(*old(self), front)
                    },
                }
            }),
    {
        match attach_mode {
            OverlayAttachMode::Monitor => OverlayTarget::Nothing,
            OverlayAttachMode::FrontmostWindow => {
                match self.poll_target(frontmost_pid, focused, list) {
                    Some(window) => OverlayTarget::Follow { window },
                    None => OverlayTarget::Nothing,
                }
            },
            OverlayAttachMode::FullscreenWindow => {
                match self.poll_frontmost_candidate(frontmost_pid, focused, list) {
                    Some(window) => OverlayTarget::FitToMonitor { window },
                    None => OverlayTarget::Nothing,
                }
            },
        }
    }
}

/// What the overlay is to cover.
#[derive(Debug)]
pub enum OverlayTarget {
    /// No window.
    Nothing,
    /// This window.
    Follow { window: MacTrackedWindow },
    /// The monitor of this window, where the window fills it.
    FitToMonitor { window: MacTrackedWindow },
}

/// The overlay never follows a window of its own process.
pub proof fn lemma_own_windows_are_not_followed(
    tracker: MacWindowTracker,
    frontmost_pid: Option<i32>,
    focused: Option<MacTrackedWindow>,
    list: Seq<Candidate>,
)
    requires
        tracker.last_window_id matches Some(id) ==> forall|i: int|
            0 <= i < list.len() && (#[trigger] list[i]).window.window_id == id
                ==> list[i].window.owner_pid != tracker.own_pid,
    ensures
        frontmost(tracker.own_pid, frontmost_pid, focused, list) matches Some(w) ==> w.owner_pid
            != tracker.own_pid,
        target(
            tracker,
            frontmost(tracker.own_pid, frontmost_pid, focused, list),
            list,
        ) matches Some(w) ==> w.owner_pid != tracker.own_pid,
{
    if let Some(pid) = frontmost_pid {
        greatest::lemma_greatest(list, windows::area_of(pid));
    }
    search::lemma_first_where(
        list,
        |c: Candidate| c.window.owner_pid != tracker.own_pid,
    );
    if let Some(id) = tracker.last_window_id {
        search::lemma_first_where(list, |c: Candidate| c.window.window_id == id);
    }
}

/// Where no window can be told to be in front, the one that was followed last is
/// followed on, as long as it is listed.
pub proof fn lemma_last_window_is_followed_on(
    tracker: MacWindowTracker,
    front: MacTrackedWindow,
    list: Seq<Candidate>,
    i: int,
)
    requires
        0 <= i < list.len(),
        list[i].window.window_id == front.window_id,
    ensures
        target(after_look(tracker, Some(front)), None, list) matches Some(w) && w.window_id
            == front.window_id,
{
    search::lemma_first_where(list, |c: Candidate| c.window.window_id == front.window_id);
}

/// How a window lies on a monitor.
#[derive(Clone, Copy, Debug)]
pub struct MonitorFit {
    /// The number of the monitor, and where it is.
    pub index: usize,
    pub bounds: MacWindowBounds,
    /// The area that the two share.
    pub overlap: Single,
    /// That area as a part of the monitor, and as a part of the window.
    pub monitor_coverage: Single,
    pub window_coverage: Single,
    /// The size of the window in sizes of the monitor.
    pub width_ratio: Single,
    pub height_ratio: Single,
    /// How far their left and their top edges are apart.
    pub left_delta: Single,
    pub top_delta: Single,
}

/// The area that a window shares with a monitor.
pub open spec fn overlap_of() -> spec_fn(MonitorFit) -> Option<Single> {
    |f: MonitorFit| Some(f.overlap)
}

/// The monitor that a window shares the largest area with.
pub open spec fn monitor_of(fits: Seq<MonitorFit>) -> Option<int> {
    greatest::greatest(fits, overlap_of())
}

/// `v` is a number below the one with the pattern `bits`.
pub open spec fn falls_short(v: Single, bits: u32) -> bool {
    !v.nan() && v.value() < (Single { bits }).value()
}

/// `v` is a number above `n`.
pub open spec fn exceeds(v: Single, n: int) -> bool {
    !v.nan() && v.value() > Single::units(n)
}

/// The window fills the monitor: nothing of what is asked of a full screen
/// window is missing.
pub open spec fn fills(f: MonitorFit) -> bool {
    &&& !falls_short(f.monitor_coverage, windows::MIN_MONITOR_COVERAGE)
    &&& !falls_short(f.window_coverage, windows::MIN_WINDOW_COVERAGE)
    &&& !falls_short(f.width_ratio, windows::MIN_WIDTH_RATIO)
    &&& !falls_short(f.height_ratio, windows::MIN_HEIGHT_RATIO)
    &&& !exceeds(f.left_delta, 96)
    &&& !exceeds(f.top_delta, 96)
}

/// The monitor that the overlay covers for a full screen window: the one of the
/// window, where that is the preferred one, if any is, and the window fills it.
pub open spec fn snapped_to(fits: Seq<MonitorFit>, preferred: Option<usize>) -> Option<int> {
    match monitor_of(fits) {
        Some(i) => if (preferred matches Some(p) ==> p == fits[i].index) && fills(fits[i]) {
            Some(i)
        } else {
            None
        },
        None => None,
    }
}

/// The window with the bounds of its monitor, where it fills that and the
/// monitor is the preferred one, if any is.
pub fn macos_snap_fullscreen_target_to_monitor(
    window: MacTrackedWindow,
    fits: &Vec<MonitorFit>,
    preferred_monitor_index: Option<usize>,
) -> (r: Option<MacTrackedWindow>)
    ensures
        r == (match snapped_to(fits@, preferred_monitor_index) {
            Some(i) => Some(MacTrackedWindow { bounds: fits@[i].bounds, ..window }),
            None => None,
        }),
{
    let ghost size = overlap_of();
    let mut best: Option<usize> = None;
    let mut best_overlap = Single::whole(0);
    let mut i: usize = 0;
    proof {
        assert(Single::units(0) == 0) by (nonlinear_arith);
    }
    while i < fits.len()
        invariant
            i <= fits.len(),
            size == overlap_of(),
            !best_overlap.nan(),
            best_overlap.value() >= 0,
            match best {
                Some(k) => k < i && size(fits@[k as int]) == Some(best_overlap) && greatest::leads(
                    fits@,
                    size,
                    k as int,
                    i as int,
                ),
                None => best_overlap.value() == 0 && forall|j: int|
                    0 <= j < i ==> (size(#[trigger] fits@[j]) matches Some(w)
                        ==> !greatest::counts(w)),
            },
        decreases fits.len() - i,
    {
        let overlap = fits[i].overlap;
        assert(size(fits@[i as int]) == Some(overlap));
        if best_overlap.lt(overlap) {
            best_overlap = overlap;
            best = Some(i);
        }
        i = i + 1;
    }
    let k = match best {
        Some(k) => k,
        None => return None,
    };
    proof {
        greatest::lemma_greatest_is(fits@, size, k as int);
    }
    let f = fits[k];
    if let Some(expected) = preferred_monitor_index {
        if expected != f.index {
            return None;
        }
    }
    let edge = Single::whole(96);
    if f.monitor_coverage.lt(Single { bits: windows::MIN_MONITOR_COVERAGE })
        || f.window_coverage.lt(Single { bits: windows::MIN_WINDOW_COVERAGE })
        || f.width_ratio.lt(Single { bits: windows::MIN_WIDTH_RATIO })
        || f.height_ratio.lt(Single { bits: windows::MIN_HEIGHT_RATIO })
        || edge.lt(f.left_delta) || edge.lt(f.top_delta) {
        return None;
    }
    Some(
        MacTrackedWindow {
            window_id: window.window_id,
            owner_pid: window.owner_pid,
            owner_name: window.owner_name,
            window_name: window.window_name,
            bounds: f.bounds,
        },
    )
}

/// A full screen window on another monitor than the preferred one does not draw
/// the overlay away from it.
pub proof fn lemma_preferred_monitor_holds(fits: Seq<MonitorFit>, preferred: usize)
    ensures
        snapped_to(fits, Some(preferred)) matches Some(i) ==> {
            &&& 0 <= i < fits.len()
            &&& fits[i].index == preferred
            &&& greatest::is_greatest(fits, overlap_of(), i)
        },
{
    greatest::lemma_greatest(fits, overlap_of());
}

/// A window that has the focus is followed, that very one, whatever process is
/// said to be in front and whatever windows are listed, unless it belongs to the
/// overlay itself. It is the window that is kept in mind.
pub proof fn lemma_focused_window_is_followed(
    tracker: MacWindowTracker,
    frontmost_pid: Option<i32>,
    focused: MacTrackedWindow,
    list: Seq<Candidate>,
)
    requires
        focused.owner_pid != tracker.own_pid,
    ensures
        ({
            let front = frontmost(tracker.own_pid, frontmost_pid, Some(focused), list);
            &&& front == Some(focused)
            &&& target(tracker, front, list) == Some(focused)
            &&& after_look(tracker, front).last_window_id == Some(focused.window_id)
            &&& after_look(tracker, front).own_pid == tracker.own_pid
        }),
{
}

/// Without a focus, or with the focus in the overlay itself, the window in front
/// is the listed window of the process in front that no other window of that
/// process exceeds in area, the first of equal ones. There is none where that
/// process is unknown or the overlay's own, or has no window of a positive area.
pub proof fn lemma_largest_window_in_front(
    own_pid: i32,
    frontmost_pid: Option<i32>,
    focused: Option<MacTrackedWindow>,
    list: Seq<Candidate>,
)
    requires
        focused matches Some(w) ==> w.owner_pid == own_pid,
    ensures
        ({
            let front = frontmost(own_pid, frontmost_pid, focused, list);
            let shown = |i: int, pid: i32|
                0 <= i < list.len() && list[i].window.owner_pid == pid && !list[i].area.nan()
                    && list[i].area.value() > 0;
            match frontmost_pid {
                Some(pid) if pid != own_pid => match front {
                    Some(w) => exists|i: int|
                        #[trigger] shown(i, pid) && list[i].window == w && forall|j: int|
                            #[trigger] shown(j, pid) ==> list[j].area.value()
                                <= list[i].area.value() && (j < i ==> list[j].area.value()
                                < list[i].area.value()),
                    None => forall|i: int| !#[trigger] shown(i, pid),
                },
                _ => front is None,
            }
        }),
{
    if let Some(pid) = frontmost_pid {
        let shown = |i: int, pid: i32|
            0 <= i < list.len() && list[i].window.owner_pid == pid && !list[i].area.nan()
                && list[i].area.value() > 0;
        let size = windows::area_of(pid);
        greatest::lemma_greatest(list, size);
        match windows::largest_of(list, pid) {
            Some(i) => {
                assert(size(list[i]) is Some);
                assert(shown(i, pid));
                assert forall|j: int| #[trigger] shown(j, pid) implies list[j].area.value()
                    <= list[i].area.value() && (j < i ==> list[j].area.value()
                    < list[i].area.value()) by {
                    assert(size(list[j]) is Some);
                }
            },
            None => {
                assert forall|j: int| !#[trigger] shown(j, pid) by {
                    if shown(j, pid) {
                        assert(size(list[j]) is Some);
                    }
                }
            },
        }
    }
}

/// Where nothing is in front, the first listed window with the identifier that
/// is kept in mind is followed, else the first listed window of another process
/// than the overlay, and nothing is kept in mind anew.
pub proof fn lemma_without_a_window_in_front(tracker: MacWindowTracker, list: Seq<Candidate>)
    ensures
        ({
            let r = target(tracker, None, list);
            let last = |i: int|
                0 <= i < list.len() && tracker.last_window_id == Some(list[i].window.window_id);
            let foreign = |i: int|
                0 <= i < list.len() && list[i].window.owner_pid != tracker.own_pid;
            &&& forall|i: int|
                #[trigger] last(i) && (forall|j: int| j < i ==> !#[trigger] last(j)) ==> r == Some(
                    list[i].window,
                )
            &&& (forall|j: int| !#[trigger] last(j)) ==> {
                &&& forall|i: int|
                    #[trigger] foreign(i) && (forall|j: int| j < i ==> !#[trigger] foreign(j))
                        ==> r == Some(list[i].window)
                &&& (forall|j: int| !#[trigger] foreign(j)) ==> r is None
            }
            &&& after_look(tracker, None) == tracker
        }),
{
    let last = |i: int|
        0 <= i < list.len() && tracker.last_window_id == Some(list[i].window.window_id);
    let foreign = |i: int| 0 <= i < list.len() && list[i].window.owner_pid != tracker.own_pid;
    let r = target(tracker, None, list);
    search::lemma_first_where(list, |c: Candidate| c.window.owner_pid != tracker.own_pid);
    if let Some(id) = tracker.last_window_id {
        search::lemma_first_where(list, |c: Candidate| c.window.window_id == id);
        if let Some(k) = windows::with_id(list, id) {
            assert(last(k));
        }
    }
    assert forall|i: int|
        #[trigger] last(i) && (forall|j: int| j < i ==> !#[trigger] last(j)) implies r == Some(
        list[i].window,
    ) by {
        let k = windows::with_id(list, tracker.last_window_id.unwrap()).unwrap();
        assert(last(k));
    }
    if forall|j: int| !#[trigger] last(j) {
        if let Some(k) = windows::first_foreign(list, tracker.own_pid) {
            assert(foreign(k));
        }
        assert forall|i: int|
            #[trigger] foreign(i) && (forall|j: int| j < i ==> !#[trigger] foreign(j)) implies r
            == Some(list[i].window) by {
            let k = windows::first_foreign(list, tracker.own_pid).unwrap();
            assert(foreign(k));
        }
    }
}

/// A window in front is always the one that is followed, and always the one that
/// is kept in mind.
pub proof fn lemma_window_in_front_is_followed(
    tracker: MacWindowTracker,
    front: MacTrackedWindow,
    list: Seq<Candidate>,
)
    ensures
        target(tracker, Some(front), list) == Some(front),
        after_look(tracker, Some(front)).last_window_id == Some(front.window_id),
        after_look(tracker, Some(front)).own_pid == tracker.own_pid,
{
}

/// A full screen window takes the overlay to a monitor exactly where the window
/// shares more with that monitor than with any other, the first of equal ones,
/// the monitor is the preferred one if any is, and the window covers enough of
/// it, lies on it with enough of itself, is wide and high enough for it, and
/// starts at most 96 pixels from its left and from its top edge.
pub proof fn lemma_full_screen_window(fits: Seq<MonitorFit>, preferred: Option<usize>, i: int)
    requires
        0 <= i < fits.len(),
    ensures
        ({
            let f = fits[i];
            let most = !f.overlap.nan() && f.overlap.value() > 0 && forall|j: int|
                0 <= j < fits.len() && !(#[trigger] fits[j]).overlap.nan() ==> {
                    &&& fits[j].overlap.value() <= f.overlap.value()
                    &&& j < i ==> fits[j].overlap.value() < f.overlap.value()
                };
            let wanted = preferred is None || preferred == Some(f.index);
            let short = |v: Single, bits: u32| !v.nan() && v.value() < (Single { bits }).value();
            let far = |v: Single| !v.nan() && v.value() > Single::units(96);
            &&& snapped_to(fits, preferred) matches Some(k) ==> 0 <= k < fits.len()
            &&& snapped_to(fits, preferred) == Some(i) <==> most && wanted && !short(
                f.monitor_coverage,
                windows::MIN_MONITOR_COVERAGE,
            ) && !short(f.window_coverage, windows::MIN_WINDOW_COVERAGE) && !short(
                f.width_ratio,
                windows::MIN_WIDTH_RATIO,
            ) && !short(f.height_ratio, windows::MIN_HEIGHT_RATIO) && !far(f.left_delta) && !far(
                f.top_delta,
            )
        }),
{
    let size = overlap_of();
    let f = fits[i];
    greatest::lemma_greatest(fits, size);
    let most = !f.overlap.nan() && f.overlap.value() > 0 && forall|j: int|
        0 <= j < fits.len() && !(#[trigger] fits[j]).overlap.nan() ==> {
            &&& fits[j].overlap.value() <= f.overlap.value()
            &&& j < i ==> fits[j].overlap.value() < f.overlap.value()
        };
    assert(size(f) == Some(f.overlap));
    if most {
        assert forall|j: int| 0 <= j < fits.len() implies (size(#[trigger] fits[j]) matches Some(w)
            ==> greatest::counts(w) ==> {
            &&& w.value() <= size(fits[i]).unwrap().value()
            &&& j < i ==> w.value() < size(fits[i]).unwrap().value()
        }) by {
            assert(size(fits[j]) == Some(fits[j].overlap));
        }
        assert(greatest::is_greatest(fits, size, i));
        greatest::lemma_greatest_is(fits, size, i);
    }
    if monitor_of(fits) == Some(i) {
        assert(greatest::is_greatest(fits, size, i));
        assert forall|j: int| 0 <= j < fits.len() && !(#[trigger] fits[j]).overlap.nan() implies {
            &&& fits[j].overlap.value() <= f.overlap.value()
            &&& j < i ==> fits[j].overlap.value() < f.overlap.value()
        } by {
            assert(size(fits[j]) == Some(fits[j].overlap));
        }
        assert(most);
    }
}

} // verus!
