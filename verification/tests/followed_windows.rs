use liver::config::{OverlayAttachMode, Platform};
use liver::follow::{
    initial_bounds, look_is_due, overlay_attach_mode_uses_window_tracking, same_mac_window_bounds,
    with_room, AppOverlay, BoundsGap, FollowStep, HelperOverlay, LOOK_INTERVAL_MS,
};
use liver::ieee::{Double, Single};
use liver::tracker::{
    macos_snap_fullscreen_target_to_monitor, MacWindowTracker, MonitorFit, OverlayTarget,
};
use liver::windows::{
    macos_find_window_by_id, macos_pick_accessibility_focused_window,
    macos_pick_best_window_for_pid, macos_pick_first_external_window,
    macos_pick_window_matching_target, macos_window_from_info, Candidate, FocusedWindow,
    MacTrackedWindow, MacWindowBounds, WindowInfo,
};

const OWN: i32 = 1;

fn single(v: f32) -> Single {
    Single { bits: v.to_bits() }
}

fn double(v: f64) -> Double {
    Double { bits: v.to_bits() }
}

fn bounds(x: f32, y: f32, width: f32, height: f32) -> MacWindowBounds {
    MacWindowBounds { x: single(x), y: single(y), width: single(width), height: single(height) }
}

fn window(id: u32, pid: i32, name: Option<&str>) -> MacTrackedWindow {
    MacTrackedWindow {
        window_id: id,
        owner_pid: pid,
        owner_name: "app".to_string(),
        window_name: name.map(|n| n.to_string()),
        bounds: bounds(id as f32, 0.0, 400.0, 300.0),
    }
}

fn candidate(id: u32, pid: i32, name: Option<&str>, area: f32, distance: f32) -> Candidate {
    Candidate { window: window(id, pid, name), area: single(area), distance: single(distance) }
}

fn id(w: Option<MacTrackedWindow>) -> Option<u32> {
    w.map(|w| w.window_id)
}

fn info() -> WindowInfo {
    WindowInfo {
        window_id: Some(7),
        owner_pid: Some(42),
        layer: Some(0),
        alpha: Some(single(1.0)),
        onscreen: Some(true),
        bounds: Some(bounds(1.0, 2.0, 160.0, 90.0)),
        owner_name: Some("Keynote".to_string()),
        window_name: Some("Slides".to_string()),
    }
}

#[test]
fn windows_that_can_be_followed() {
    let w = macos_window_from_info(info()).unwrap();
    assert_eq!(w.window_id, 7);
    assert_eq!(w.owner_pid, 42);
    assert_eq!(w.owner_name, "Keynote");
    assert_eq!(w.window_name.as_deref(), Some("Slides"));
    assert_eq!(w.bounds, bounds(1.0, 2.0, 160.0, 90.0));

    let sparse = WindowInfo {
        alpha: None,
        onscreen: None,
        owner_name: None,
        window_name: Some(" \u{3000}".to_string()),
        layer: Some(25),
        ..info()
    };
    let w = macos_window_from_info(sparse).unwrap();
    assert_eq!(w.owner_name, "pid-42");
    assert_eq!(w.window_name, None);
}

#[test]
fn windows_that_cannot_be_followed() {
    let refused = [
        WindowInfo { window_id: None, ..info() },
        WindowInfo { owner_pid: None, ..info() },
        WindowInfo { layer: None, ..info() },
        WindowInfo { layer: Some(-1), ..info() },
        WindowInfo { alpha: Some(single(0.01)), ..info() },
        WindowInfo { alpha: Some(single(0.0)), ..info() },
        WindowInfo { onscreen: Some(false), ..info() },
        WindowInfo { bounds: None, ..info() },
        WindowInfo { bounds: Some(bounds(0.0, 0.0, 159.9, 90.0)), ..info() },
        WindowInfo { bounds: Some(bounds(0.0, 0.0, 160.0, 89.9)), ..info() },
    ];
    for w in refused {
        assert!(macos_window_from_info(w).is_none());
    }
    let faint = WindowInfo { alpha: Some(single(0.0101)), ..info() };
    assert!(macos_window_from_info(faint).is_some());
}

#[test]
fn the_largest_window_of_a_process() {
    let list = vec![
        candidate(1, 5, None, 100.0, 0.0),
        candidate(2, 5, None, 300.0, 0.0),
        candidate(3, 6, None, 900.0, 0.0),
        candidate(4, 5, None, 300.0, 0.0),
        candidate(5, 5, None, f32::NAN, 0.0),
        candidate(6, 8, None, 0.0, 0.0),
    ];
    assert_eq!(id(macos_pick_best_window_for_pid(&list, 5)), Some(2));
    assert_eq!(id(macos_pick_best_window_for_pid(&list, 6)), Some(3));
    assert_eq!(id(macos_pick_best_window_for_pid(&list, 7)), None);
    assert_eq!(id(macos_pick_best_window_for_pid(&list, 8)), None);
}

#[test]
fn windows_by_identifier_and_by_process() {
    let list = vec![candidate(1, OWN, None, 1.0, 0.0), candidate(2, 6, None, 1.0, 0.0)];
    assert_eq!(id(macos_find_window_by_id(&list, 2)), Some(2));
    assert_eq!(id(macos_find_window_by_id(&list, 3)), None);
    assert_eq!(id(macos_pick_first_external_window(&list, OWN)), Some(2));
    assert_eq!(id(macos_pick_first_external_window(&list, 6)), Some(1));
    assert_eq!(id(macos_pick_first_external_window(&vec![], 6)), None);
}

#[test]
fn the_window_that_matches_best() {
    let list = vec![
        candidate(1, 5, Some("a"), 1.0, 1.0),
        candidate(2, 5, Some("b"), 1.0, 9.0),
        candidate(3, 5, Some("b"), 1.0, 4.0),
        candidate(4, 6, Some("b"), 1.0, 0.0),
        candidate(5, 5, None, 1.0, 0.5),
    ];
    let best = |title: Option<&str>, pid| {
        id(macos_pick_window_matching_target(&list, pid, &title.map(|t| t.to_string())))
    };
    assert_eq!(best(Some("b"), 5), Some(3));
    assert_eq!(best(Some("a"), 5), Some(1));
    // Without such a title, and without any title, the nearest one matches.
    assert_eq!(best(Some("c"), 5), Some(5));
    assert_eq!(best(None, 5), Some(5));
    assert_eq!(best(Some("b"), 7), None);
}

#[test]
fn the_window_with_the_focus() {
    let list = vec![
        candidate(1, 5, Some("a"), 50.0, 1.0),
        candidate(2, 5, Some("b"), 80.0, 2.0),
    ];
    let focus = |pid, width, height, title: &str| {
        let focused = FocusedWindow {
            owner_pid: pid,
            width: double(width),
            height: double(height),
            title: Some(title.to_string()),
        };
        id(macos_pick_accessibility_focused_window(focused, &list))
    };
    assert_eq!(focus(5, 160.0, 90.0, "b"), Some(2));
    assert_eq!(focus(5, 160.0, 90.0, "  "), Some(1));
    assert_eq!(focus(5, 159.9, 90.0, "b"), None);
    assert_eq!(focus(5, 160.0, 89.9, "b"), None);
    assert_eq!(focus(6, 800.0, 600.0, "b"), None);
}

#[test]
fn the_window_in_front_is_followed() {
    let list = vec![candidate(1, 5, None, 50.0, 0.0), candidate(2, 6, None, 80.0, 0.0)];
    let mut tracker = MacWindowTracker::new(OWN);
    assert_eq!(tracker, MacWindowTracker { own_pid: OWN, last_window_id: None });
    let focused = Some(window(9, 5, None));
    assert_eq!(id(tracker.poll_target(Some(6), focused, &list)), Some(9));
    assert_eq!(tracker.last_window_id, Some(9));
    assert_eq!(id(tracker.poll_target(Some(6), None, &list)), Some(2));
    assert_eq!(tracker.last_window_id, Some(2));
}

#[test]
fn own_windows_are_not_followed() {
    let list = vec![candidate(1, OWN, None, 90.0, 0.0), candidate(2, 6, None, 80.0, 0.0)];
    let mut tracker = MacWindowTracker::new(OWN);
    let own = Some(window(1, OWN, None));
    assert_eq!(id(tracker.poll_frontmost_candidate(Some(OWN), own.clone(), &list)), None);
    assert_eq!(tracker.last_window_id, None);
    assert_eq!(id(tracker.poll_target(Some(OWN), own, &list)), Some(2));
    // The first foreign window is a makeshift and not kept in mind.
    assert_eq!(tracker.last_window_id, None);
}

#[test]
fn the_last_window_is_followed_on() {
    let list = vec![candidate(1, 5, None, 50.0, 0.0), candidate(2, 6, None, 80.0, 0.0)];
    let mut tracker = MacWindowTracker::new(OWN);
    assert_eq!(id(tracker.poll_target(Some(6), None, &list)), Some(2));
    assert_eq!(id(tracker.poll_target(None, None, &list)), Some(2));
    let without = vec![candidate(1, 5, None, 50.0, 0.0)];
    assert_eq!(id(tracker.poll_target(None, None, &without)), Some(1));
    assert_eq!(tracker.last_window_id, Some(2));
    assert_eq!(id(tracker.poll_target(None, None, &vec![])), None);
}

#[test]
fn what_is_covered_in_each_mode() {
    let list = vec![candidate(2, 6, None, 80.0, 0.0)];
    let mut tracker = MacWindowTracker::new(OWN);
    let m = OverlayAttachMode::Monitor;
    assert!(matches!(
        tracker.poll_overlay_target(m, Some(6), None, &list),
        OverlayTarget::Nothing
    ));
    assert_eq!(tracker.last_window_id, None);
    let f = OverlayAttachMode::FullscreenWindow;
    match tracker.poll_overlay_target(f, Some(6), None, &list) {
        OverlayTarget::FitToMonitor { window } => assert_eq!(window.window_id, 2),
        other => panic!("{:?}", other),
    }
    assert!(matches!(tracker.poll_overlay_target(f, None, None, &list), OverlayTarget::Nothing));
    let w = OverlayAttachMode::FrontmostWindow;
    match tracker.poll_overlay_target(w, None, None, &list) {
        OverlayTarget::Follow { window } => assert_eq!(window.window_id, 2),
        other => panic!("{:?}", other),
    }
    assert!(matches!(
        tracker.poll_overlay_target(w, None, None, &vec![]),
        OverlayTarget::Nothing
    ));
}

fn fit(index: usize, overlap: f32) -> MonitorFit {
    MonitorFit {
        index,
        bounds: bounds(index as f32 * 1000.0, 0.0, 1000.0, 800.0),
        overlap: single(overlap),
        monitor_coverage: single(0.88),
        window_coverage: single(0.75),
        width_ratio: single(0.88),
        height_ratio: single(0.84),
        left_delta: single(96.0),
        top_delta: single(96.0),
    }
}

#[test]
fn full_screen_windows_are_fitted_to_their_monitor() {
    let snap = |fits: Vec<MonitorFit>, preferred| {
        macos_snap_fullscreen_target_to_monitor(window(3, 5, Some("t")), &fits, preferred)
    };
    let w = snap(vec![fit(0, 10.0), fit(1, 20.0), fit(2, 20.0)], None).unwrap();
    assert_eq!(w.window_id, 3);
    assert_eq!(w.window_name.as_deref(), Some("t"));
    assert_eq!(w.bounds, bounds(1000.0, 0.0, 1000.0, 800.0));
    assert!(snap(vec![fit(0, 10.0), fit(1, 20.0)], Some(1)).is_some());
    // A window on another monitor than the preferred one changes nothing.
    assert!(snap(vec![fit(0, 10.0), fit(1, 20.0)], Some(0)).is_none());
    assert!(snap(vec![fit(0, 0.0)], None).is_none());
    assert!(snap(vec![], None).is_none());
}

#[test]
fn windows_that_do_not_fill_their_monitor_are_not_fitted() {
    let short = [
        MonitorFit { monitor_coverage: single(0.879), ..fit(0, 1.0) },
        MonitorFit { window_coverage: single(0.749), ..fit(0, 1.0) },
        MonitorFit { width_ratio: single(0.879), ..fit(0, 1.0) },
        MonitorFit { height_ratio: single(0.839), ..fit(0, 1.0) },
        MonitorFit { left_delta: single(96.1), ..fit(0, 1.0) },
        MonitorFit { top_delta: single(96.1), ..fit(0, 1.0) },
    ];
    for f in short {
        let w = window(3, 5, None);
        assert!(macos_snap_fullscreen_target_to_monitor(w, &vec![f], None).is_none());
    }
}

fn gap(v: f32) -> BoundsGap {
    BoundsGap { x: single(v), y: single(0.0), width: single(0.0), height: single(0.0) }
}

#[test]
fn bounds_are_the_same_but_for_parts_of_a_pixel() {
    assert!(same_mac_window_bounds(gap(0.0)));
    assert!(same_mac_window_bounds(gap(0.99)));
    assert!(!same_mac_window_bounds(gap(1.0)));
    assert!(!same_mac_window_bounds(gap(f32::NAN)));
    let zero = gap(0.0);
    assert!(!same_mac_window_bounds(BoundsGap { y: single(2.0), ..zero }));
    assert!(!same_mac_window_bounds(BoundsGap { width: single(2.0), ..zero }));
    assert!(!same_mac_window_bounds(BoundsGap { height: single(2.0), ..zero }));
}

#[test]
fn windows_are_followed_on_mac_os_only() {
    let m = OverlayAttachMode::Monitor;
    let f = OverlayAttachMode::FullscreenWindow;
    let w = OverlayAttachMode::FrontmostWindow;
    assert!(overlay_attach_mode_uses_window_tracking(f, Platform::MacOs));
    assert!(overlay_attach_mode_uses_window_tracking(w, Platform::MacOs));
    assert!(!overlay_attach_mode_uses_window_tracking(m, Platform::MacOs));
    assert!(!overlay_attach_mode_uses_window_tracking(w, Platform::Windows));
    assert_eq!(LOOK_INTERVAL_MS, 150);
    assert!(look_is_due(w, Platform::MacOs, 150));
    assert!(!look_is_due(w, Platform::MacOs, 149));
    assert!(!look_is_due(w, Platform::Other, 1000));
}

fn helper_overlay(mode: OverlayAttachMode, followed: Option<MacTrackedWindow>) -> HelperOverlay {
    HelperOverlay {
        attach_mode: mode,
        tracked_window: followed,
        fallback_bounds: bounds(0.0, 0.0, 1920.0, 1080.0),
    }
}

fn app_overlay(mode: OverlayAttachMode, followed: Option<MacTrackedWindow>) -> AppOverlay {
    AppOverlay {
        attach_mode: mode,
        tracked_window: followed,
        fallback_bounds: Some(bounds(0.0, 0.0, 1920.0, 1080.0)),
    }
}

const STILL: FollowStep =
    FollowStep { announce_target: false, announce_fallback: false, move_to: None };

#[test]
fn the_helper_moves_along_with_its_window() {
    let w = OverlayAttachMode::FrontmostWindow;
    let mut o = helper_overlay(w, None);
    let step = o.sync(Some(window(3, 5, None)), gap(0.0), gap(0.0));
    assert_eq!(
        step,
        FollowStep {
            announce_target: true,
            announce_fallback: false,
            move_to: Some(bounds(3.0, 0.0, 400.0, 300.0)),
        }
    );
    assert_eq!(o.sync(Some(window(3, 5, None)), gap(0.5), gap(9.0)), STILL);
    let step = o.sync(Some(window(3, 5, None)), gap(5.0), gap(9.0));
    assert_eq!(step, FollowStep { move_to: Some(bounds(3.0, 0.0, 400.0, 300.0)), ..STILL });
    let step = o.sync(Some(window(4, 5, None)), gap(0.0), gap(9.0));
    assert_eq!(step, FollowStep { announce_target: true, ..STILL });
    assert_eq!(o.tracked_window.map(|w| w.window_id), Some(4));
}

#[test]
fn without_a_window_the_helper_stays_where_it_was() {
    let w = OverlayAttachMode::FrontmostWindow;
    let mut o = helper_overlay(w, Some(window(3, 5, None)));
    assert_eq!(o.sync(None, gap(0.0), gap(9.0)), STILL);
    assert_eq!(o.tracked_window.as_ref().map(|w| w.window_id), Some(3));
    let mut fresh = helper_overlay(w, None);
    let home = bounds(0.0, 0.0, 1920.0, 1080.0);
    let step = FollowStep { move_to: Some(home), ..STILL };
    assert_eq!(fresh.sync(None, gap(0.0), gap(0.0)), step);
    assert!(fresh.tracked_window.is_none());
}

#[test]
fn without_a_full_screen_window_the_helper_goes_home() {
    let f = OverlayAttachMode::FullscreenWindow;
    let home = bounds(0.0, 0.0, 1920.0, 1080.0);
    let mut o = helper_overlay(f, Some(window(3, 5, None)));
    assert_eq!(
        o.sync(None, gap(0.0), gap(9.0)),
        FollowStep { announce_target: false, announce_fallback: true, move_to: Some(home) }
    );
    assert!(o.tracked_window.is_none());
    assert_eq!(o.sync(None, gap(0.0), gap(0.0)), FollowStep { move_to: Some(home), ..STILL });
    let mut near = helper_overlay(f, Some(window(3, 5, None)));
    assert_eq!(
        near.sync(None, gap(0.0), gap(0.0)),
        FollowStep { announce_fallback: true, ..STILL }
    );
}

#[test]
fn the_application_window_moves_along() {
    let w = OverlayAttachMode::FrontmostWindow;
    let mut o = app_overlay(w, None);
    assert_eq!(o.sync(None, gap(0.0), gap(9.0)), STILL);
    let step = o.sync(Some(window(3, 5, None)), gap(0.0), gap(0.0));
    assert!(step.announce_target);
    assert_eq!(step.move_to, Some(bounds(3.0, 0.0, 400.0, 300.0)));
    assert_eq!(o.sync(Some(window(3, 5, None)), gap(0.0), gap(9.0)), STILL);
    assert_eq!(o.sync(None, gap(0.0), gap(9.0)), STILL);
    assert_eq!(o.tracked_window.map(|w| w.window_id), Some(3));

    let f = OverlayAttachMode::FullscreenWindow;
    let home = bounds(0.0, 0.0, 1920.0, 1080.0);
    let mut o = app_overlay(f, Some(window(3, 5, None)));
    assert_eq!(
        o.sync(None, gap(0.0), gap(9.0)),
        FollowStep { announce_target: false, announce_fallback: true, move_to: Some(home) }
    );
    assert!(o.tracked_window.is_none());
    let mut near = app_overlay(f, Some(window(3, 5, None)));
    assert_eq!(near.sync(None, gap(9.0), gap(0.0)), STILL);
    assert!(near.tracked_window.is_none());
    let mut homeless = AppOverlay { fallback_bounds: None, ..app_overlay(f, None) };
    assert_eq!(homeless.sync(None, gap(0.0), gap(9.0)), STILL);
}

#[test]
fn where_an_overlay_starts_and_how_small_it_gets() {
    let home = bounds(0.0, 0.0, 1920.0, 1080.0);
    assert_eq!(initial_bounds(&None, home), home);
    assert_eq!(
        initial_bounds(&Some(window(3, 5, None)), home),
        bounds(3.0, 0.0, 400.0, 300.0)
    );
    assert_eq!(with_room(home), home);
    assert_eq!(with_room(bounds(1.0, 2.0, 10.0, 20.0)), bounds(1.0, 2.0, 160.0, 90.0));
}
