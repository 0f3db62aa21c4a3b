//! Moving the overlay along with what it covers.

use vstd::prelude::*;

use crate::config::{OverlayAttachMode, Platform};
use crate::ieee::Single;
use crate::windows::{MacTrackedWindow, MacWindowBounds};

verus! {

/// How far two rectangles are apart, coordinate by coordinate.
#[derive(Clone, Copy, Debug, PartialEq, Eq, Structural)]
pub struct BoundsGap {
    pub x: Single,
    pub y: Single,
    pub width: Single,
    pub height: Single,
}

/// `v` is a number below 1.
pub open spec fn below_one(v: Single) -> bool {
    !v.nan() && v.value() < Single::units(1)
}

/// The two rectangles are the same but for parts of a pixel.
pub open spec fn same_place(gap: BoundsGap) -> bool {
    below_one(gap.x) && below_one(gap.y) && below_one(gap.width) && below_one(gap.height)
}

/// Whether two rectangles are the same but for parts of a pixel.
pub fn same_mac_window_bounds(gap: BoundsGap) -> (r: bool)
    ensures
        r == same_place(gap),
{
    let one = Single::whole(1);
    gap.x.lt(one) && gap.y.lt(one) && gap.width.lt(one) && gap.height.lt(one)
}

/// Whether the overlay follows windows at all: only macOS tells where they are.
pub open spec fn tracks_windows(mode: OverlayAttachMode, platform: Platform) -> bool {
    platform is MacOs && !(mode is Monitor)
}

/// Whether the overlay follows windows at all.
pub fn overlay_attach_mode_uses_window_tracking(mode: OverlayAttachMode, platform: Platform) -> (r:
    bool)
    ensures
        r == tracks_windows(mode, platform),
{
    match (platform, mode) {
        (Platform::MacOs, OverlayAttachMode::FullscreenWindow) => true,
        (Platform::MacOs, OverlayAttachMode::FrontmostWindow) => true,
        _ => false,
    }
}

/// What one look at the desktop makes the overlay do.
#[derive(Clone, Copy, Debug, PartialEq, Eq, Structural)]
pub struct FollowStep {
    /// Say that another window is followed now.
    pub announce_target: bool,
    /// Say that the overlay goes back to its monitor.
    pub announce_fallback: bool,
    /// Move the overlay here.
    pub move_to: Option<MacWindowBounds>,
}

/// Another window than `previous` is followed.
pub open spec fn is_other(previous: Option<MacTrackedWindow>, w: MacTrackedWindow) -> bool {
    previous matches Some(p) ==> p.window_id != w.window_id
}

/// The overlay is not where it was for `previous`, `gap` away.
pub open spec fn has_moved(previous: Option<MacTrackedWindow>, gap: BoundsGap) -> bool {
    previous is Some ==> !same_place(gap)
}

fn moved(previous: &Option<MacTrackedWindow>, gap: BoundsGap) -> (r: bool)
    ensures
        r == has_moved(*previous, gap),
{
    match previous {
        Some(_) => !same_mac_window_bounds(gap),
        None => true,
    }
}

fn other(previous: &Option<MacTrackedWindow>, w: &MacTrackedWindow) -> (r: bool)
    ensures
        r == is_other(*previous, *w),
{
    match previous {
        Some(p) => p.window_id != w.window_id,
        None => true,
    }
}

/// An overlay in a window of its own, with the window that it follows and the
/// place that it has otherwise.
#[derive(Debug)]
pub struct HelperOverlay {
    pub attach_mode: OverlayAttachMode,
    pub tracked_window: Option<MacTrackedWindow>,
    pub fallback_bounds: MacWindowBounds,
}

/// What the overlay in a window of its own does once `next` is what it is to
/// cover. A window is followed wherever it moves. Without one, an overlay for
/// full screen windows goes back to its place, and any other overlay stays
/// where it is, or takes its place where it has followed no window yet.
pub open spec fn helper_step(
    o: HelperOverlay,
    next: Option<MacTrackedWindow>,
    gap_to_next: BoundsGap,
    gap_to_fallback: BoundsGap,
) -> FollowStep {
    match next {
        Some(w) => FollowStep {
            announce_target: is_other(o.tracked_window, w),
            announce_fallback: false,
            move_to: if has_moved(o.tracked_window, gap_to_next) {
                Some(w.bounds)
            } else {
                None
            },
        },
        None => if o.attach_mode is FullscreenWindow {
            FollowStep {
                announce_target: false,
                announce_fallback: o.tracked_window is Some,
                move_to: if has_moved(o.tracked_window, gap_to_fallback) {
                    Some(o.fallback_bounds)
                } else {
                    None
                },
            }
        } else {
            FollowStep {
                announce_target: false,
                announce_fallback: false,
                move_to: if o.tracked_window is None {
                    Some(o.fallback_bounds)
                } else {
                    None
                },
            }
        },
    }
}

/// The window that is followed after the one to cover was `next`.
pub open spec fn followed_after(
    mode: OverlayAttachMode,
    previous: Option<MacTrackedWindow>,
    next: Option<MacTrackedWindow>,
) -> Option<MacTrackedWindow> {
    match next {
        Some(w) => Some(w),
        None => if mode is FullscreenWindow {
            None
        } else {
            previous
        },
    }
}

impl HelperOverlay {
    /// Takes note of what the overlay is to cover and gives what it does. The
    /// gaps are those from the window that was followed so far to `next` and to
    /// the fallback; where none was followed they do not matter.
    pub fn sync(
        &mut self,
        next: Option<MacTrackedWindow>,
        gap_to_next: BoundsGap,
        gap_to_fallback: BoundsGap,
    ) -> (r: FollowStep)
        ensures
            r == helper_step(*old(self), next, gap_to_next, gap_to_fallback),
            final(self).attach_mode == old(self).attach_mode,
            final(self).fallback_bounds == old(self).fallback_bounds,
            final(self).tracked_window == followed_after(
                old(self).attach_mode,
                old(self).tracked_window,
                next,
            ),
    {
        if let Some(w) = next {
            let r = FollowStep {
                announce_target: other(&self.tracked_window, &w),
                announce_fallback: false,
                move_to: if moved(&self.tracked_window, gap_to_next) {
                    Some(w.bounds)
                } else {
                    None
                },
            };
            self.tracked_window = Some(w);
            return r;
        }
        match self.attach_mode {
            OverlayAttachMode::FullscreenWindow => {
                let r = FollowStep {
                    announce_target: false,
                    announce_fallback: self.tracked_window.is_some(),
                    move_to: if moved(&self.tracked_window, gap_to_fallback) {
                        Some(self.fallback_bounds)
                    } else {
                        None
                    },
                };
                self.tracked_window = None;
                r
            },
            _ => FollowStep {
                announce_target: false,
                announce_fallback: false,
                move_to: if self.tracked_window.is_none() {
                    Some(self.fallback_bounds)
                } else {
                    None
                },
            },
        }
    }
}

/// Where an overlay starts: over the window that it follows, else at its place.
pub fn initial_bounds(followed: &Option<MacTrackedWindow>, fallback: MacWindowBounds) -> (r:
    MacWindowBounds)
    ensures
        r == (match *followed {
            Some(w) => w.bounds,
            None => fallback,
        }),
{
    match followed {
        Some(w) => w.bounds,
        None => fallback,
    }
}

/// An overlay in the window of the application, with the window that it follows
/// and the place that it goes back to, if it has one.
#[derive(Debug)]
pub struct AppOverlay {
    pub attach_mode: OverlayAttachMode,
    pub tracked_window: Option<MacTrackedWindow>,
    pub fallback_bounds: Option<MacWindowBounds>,
}

/// The overlay is given at least 160 by 90 pixels.
pub open spec fn has_room(from: MacWindowBounds, to: MacWindowBounds) -> bool {
    &&& to.x == from.x && to.y == from.y
    &&& if !from.width.nan() && from.width.value() > Single::units(160) {
        to.width == from.width
    } else {
        !to.width.nan() && to.width.value() == Single::units(160)
    }
    &&& if !from.height.nan() && from.height.value() > Single::units(90) {
        to.height == from.height
    } else {
        !to.height.nan() && to.height.value() == Single::units(90)
    }
}

/// `bounds`, made at least 160 by 90 pixels large.
pub fn with_room(bounds: MacWindowBounds) -> (r: MacWindowBounds)
    ensures
        has_room(bounds, r),
{
    MacWindowBounds {
        x: bounds.x,
        y: bounds.y,
        width: bounds.width.at_least(Single::whole(160)),
        height: bounds.height.at_least(Single::whole(90)),
    }
}

/// What the overlay in the window of the application does once `next` is what
/// it is to cover. A window is followed wherever it moves. Without one, an
/// overlay for full screen windows goes back to its place, and any other overlay
/// stays where it is.
pub open spec fn app_step(
    o: AppOverlay,
    next: Option<MacTrackedWindow>,
    gap_to_next: BoundsGap,
    gap_to_fallback: BoundsGap,
) -> FollowStep {
    match next {
        Some(w) => FollowStep {
            announce_target: is_other(o.tracked_window, w),
            announce_fallback: false,
            move_to: if has_moved(o.tracked_window, gap_to_next) {
                Some(w.bounds)
            } else {
                None
            },
        },
        None => {
            let goes_back = o.attach_mode is FullscreenWindow && o.fallback_bounds is Some
                && has_moved(o.tracked_window, gap_to_fallback);
            FollowStep {
                announce_target: false,
                announce_fallback: goes_back,
                move_to: if goes_back {
                    o.fallback_bounds
                } else {
                    None
                },
            }
        },
    }
}

impl AppOverlay {
    /// Takes note of what the overlay is to cover and gives what it does. The
    /// gaps are those from the window that was followed so far to `next` and to
    /// the fallback; where none was followed they do not matter.
    pub fn sync(
        &mut self,
        next: Option<MacTrackedWindow>,
        gap_to_next: BoundsGap,
        gap_to_fallback: BoundsGap,
    ) -> (r: FollowStep)
        ensures
            r == app_step(*old(self), next, gap_to_next, gap_to_fallback),
            final(self).attach_mode == old(self).attach_mode,
            final(self).fallback_bounds == old(self).fallback_bounds,
            final(self).tracked_window == followed_after(
                old(self).attach_mode,
                old(self).tracked_window,
                next,
            ),
    {
        if let Some(w) = next {
            let r = FollowStep {
                announce_target: other(&self.tracked_window, &w),
                announce_fallback: false,
                move_to: if moved(&self.tracked_window, gap_to_next) {
                    Some(w.bounds)
                } else {
                    None
                },
            };
            self.tracked_window = Some(w);
            return r;
        }
        let mut r = FollowStep {
            announce_target: false,
            announce_fallback: false,
            move_to: None,
        };
        match self.attach_mode {
            OverlayAttachMode::FullscreenWindow => {
                if let Some(bounds) = self.fallback_bounds {
                    if moved(&self.tracked_window, gap_to_fallback) {
                        r.announce_fallback = true;
                        r.move_to = Some(bounds);
                    }
                }
                self.tracked_window = None;
            },
            _ => {},
        }
        r
    }
}

/// The pause between two looks at the desktop, in milliseconds.
pub const LOOK_INTERVAL_MS: u64 = 150;

/// Whether it is time for another look at the desktop.
pub fn look_is_due(mode: OverlayAttachMode, platform: Platform, elapsed_ms: u64) -> (r: bool)
    ensures
        r == (tracks_windows(mode, platform) && elapsed_ms >= LOOK_INTERVAL_MS),
{
    overlay_attach_mode_uses_window_tracking(mode, platform) && elapsed_ms >= LOOK_INTERVAL_MS
}

/// Where the window in front cannot be told for a while, an overlay that follows
/// it stays where it was last and keeps the window in mind.
pub proof fn lemma_last_place_is_kept(o: HelperOverlay, a: AppOverlay, g: BoundsGap, h: BoundsGap)
    requires
        !(o.attach_mode is FullscreenWindow),
        o.tracked_window is Some,
        !(a.attach_mode is FullscreenWindow),
    ensures
        helper_step(o, None, g, h).move_to is None,
        app_step(a, None, g, h).move_to is None,
        followed_after(o.attach_mode, o.tracked_window, None) == o.tracked_window,
        followed_after(a.attach_mode, a.tracked_window, None) == a.tracked_window,
{
}

/// An overlay that follows a window that does not move is left alone.
pub proof fn lemma_still_window_moves_nothing(
    o: HelperOverlay,
    a: AppOverlay,
    w: MacTrackedWindow,
    g: BoundsGap,
    h: BoundsGap,
)
    requires
        o.tracked_window is Some,
        a.tracked_window is Some,
        same_place(g),
    ensures
        helper_step(o, Some(w), g, h).move_to is None,
        app_step(a, Some(w), g, h).move_to is None,
{
}

/// Whatever window was followed so far, the overlay goes to the bounds of the
/// window that it is to cover, unless it is over a window already whose bounds
/// differ from these by less than a pixel in each of the four coordinates. So
/// the overlay is then where the window is, or stays within a pixel of it. That
/// another window is followed is announced exactly where its identifier is
/// another one, or none was followed, wherever the overlay goes.
pub proof fn lemma_overlay_goes_to_its_window(
    o: HelperOverlay,
    a: AppOverlay,
    w: MacTrackedWindow,
    g: BoundsGap,
    h: BoundsGap,
)
    ensures
        ({
            let near = |v: Single| !v.nan() && v.value() < Single::units(1);
            let there = near(g.x) && near(g.y) && near(g.width) && near(g.height);
            let s = helper_step(o, Some(w), g, h);
            let t = app_step(a, Some(w), g, h);
            &&& o.tracked_window is None || !there ==> s.move_to == Some(w.bounds)
            &&& o.tracked_window is Some && there ==> s.move_to is None
            &&& a.tracked_window is None || !there ==> t.move_to == Some(w.bounds)
            &&& a.tracked_window is Some && there ==> t.move_to is None
            &&& s.announce_target <==> (o.tracked_window is None
                || o.tracked_window.unwrap().window_id != w.window_id)
            &&& t.announce_target <==> (a.tracked_window is None
                || a.tracked_window.unwrap().window_id != w.window_id)
            &&& !s.announce_fallback && !t.announce_fallback
        }),
{
}

/// A window that is to be covered is the one that is followed from then on,
/// whatever is covered and whatever was followed. Without one, an overlay for
/// full screen windows follows none, and any other one the same as before.
pub proof fn lemma_what_is_followed(
    mode: OverlayAttachMode,
    previous: Option<MacTrackedWindow>,
    w: MacTrackedWindow,
)
    ensures
        followed_after(mode, previous, Some(w)) == Some(w),
        mode is FullscreenWindow ==> followed_after(mode, previous, None) is None,
        mode !is FullscreenWindow ==> followed_after(mode, previous, None) == previous,
{
}

/// Without a window to cover, an overlay for full screen windows goes back to
/// its place, unless the window that it followed was there within a pixel. The
/// overlay in a window of its own says so where it had followed one, and the one
/// in the window of the application where it goes back.
pub proof fn lemma_overlay_goes_back(o: HelperOverlay, a: AppOverlay, g: BoundsGap, h: BoundsGap)
    requires
        o.attach_mode is FullscreenWindow,
        a.attach_mode is FullscreenWindow,
    ensures
        ({
            let near = |v: Single| !v.nan() && v.value() < Single::units(1);
            let there = near(h.x) && near(h.y) && near(h.width) && near(h.height);
            let s = helper_step(o, None, g, h);
            let t = app_step(a, None, g, h);
            &&& o.tracked_window is None || !there ==> s.move_to == Some(o.fallback_bounds)
            &&& o.tracked_window is Some && there ==> s.move_to is None
            &&& s.announce_fallback <==> o.tracked_window is Some
            &&& (a.tracked_window is None || !there) ==> t.move_to == a.fallback_bounds
            &&& a.tracked_window is Some && there ==> t.move_to is None
            &&& t.announce_fallback <==> t.move_to is Some
            &&& !s.announce_target && !t.announce_target
        }),
{
}

/// Without a window to cover, an overlay for anything else than full screen
/// windows says nothing and stays where it is. Only the overlay in a window of
/// its own takes its place where it has followed no window yet.
pub proof fn lemma_overlay_waits(o: HelperOverlay, a: AppOverlay, g: BoundsGap, h: BoundsGap)
    requires
        o.attach_mode !is FullscreenWindow,
        a.attach_mode !is FullscreenWindow,
    ensures
        ({
            let s = helper_step(o, None, g, h);
            let t = app_step(a, None, g, h);
            &&& s.move_to == (if o.tracked_window is None {
                Some(o.fallback_bounds)
            } else {
                None
            })
            &&& t.move_to is None
            &&& !s.announce_target && !s.announce_fallback
            &&& !t.announce_target && !t.announce_fallback
        }),
{
}

/// The two kinds of overlay move alike over a window, whatever they cover
/// otherwise, and how far away their place is does not matter then.
pub proof fn lemma_overlays_move_alike(
    o: HelperOverlay,
    a: AppOverlay,
    w: MacTrackedWindow,
    g: BoundsGap,
    h: BoundsGap,
    other: BoundsGap,
)
    requires
        o.tracked_window == a.tracked_window,
    ensures
        helper_step(o, Some(w), g, h) == app_step(a, Some(w), g, other),
        helper_step(o, Some(w), g, h) == helper_step(o, Some(w), g, other),
{
}

/// Windows are followed on macOS, and only where no monitor is to be covered.
pub proof fn lemma_tracks_windows(mode: OverlayAttachMode, platform: Platform)
    ensures
        tracks_windows(mode, platform) <==> platform is MacOs && (mode is FullscreenWindow || mode
            is FrontmostWindow),
{
}

/// An overlay that has room is at the same place, at least 160 wide and 90 high,
/// and has the size that was asked for where that is larger.
pub proof fn lemma_room(from: MacWindowBounds, to: MacWindowBounds)
    requires
        has_room(from, to),
    ensures
        to.x == from.x,
        to.y == from.y,
        !to.width.nan() && to.width.value() >= Single::units(160),
        !to.height.nan() && to.height.value() >= Single::units(90),
        !from.width.nan() && from.width.value() > Single::units(160) ==> to.width == from.width,
        !from.height.nan() && from.height.value() > Single::units(90) ==> to.height == from.height,
        from.width.nan() || from.width.value() <= Single::units(160) ==> to.width.value()
            == Single::units(160),
        from.height.nan() || from.height.value() <= Single::units(90) ==> to.height.value()
            == Single::units(90),
{
}

} // verus!
