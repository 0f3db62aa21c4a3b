use liver::config::{OverlayAttachMode, Platform};
use liver::fonts::{candidate_cjk_font_paths, font_key, prefer_loaded_fonts};
use liver::helper::{
    helper_style_mask, macos_desktop_bottom_edge, macos_helper_collection_behavior,
    macos_helper_window_kind, macos_helper_window_kind_label, macos_log_accessibility_hint_once,
    macos_log_ns_window_hacks_hint_once, macos_log_screen_capture_hint_once, macos_monitor_bounds,
    macos_native_helper_fallback_bounds, macos_native_helper_overlay_enabled,
    macos_native_helper_overlay_url, macos_ns_window_hacks_enabled, macos_overlay_window_level,
    overlay_collection_behavior, should_request_permission, MacHelperWindowKind, PixelRect,
    SCREEN_SAVER_LEVEL_KEY,
};
use liver::ieee::Single;
use liver::monitors::{
    default_monitor_index, invalid_monitor_notice, log_monitors, missing_monitor_notice,
    monitor_question, number_monitors, prompt_monitor_index, select_monitor, Display, MonitorSpec,
};
use liver::overlay::{overlay_attach_mode_label, plan_overlay, plan_viewport, ViewportPlan};
use liver::startup::enable_utf8_console;
use liver::tunnel_log::{LogLevel, LogSource};

fn display(name: &str, x: i32, primary: bool) -> Display {
    Display {
        x,
        y: -5,
        width: 1920,
        height: 1080,
        scale_factor: "2".to_string(),
        is_primary: primary,
        name: name.to_string(),
    }
}

fn two_monitors() -> Vec<MonitorSpec> {
    number_monitors(&vec![
        display("EPSON Projector", -1920, false),
        display("Color LCD", 0, true),
    ])
}

fn single(v: f32) -> Single {
    Single { bits: v.to_bits() }
}

#[test]
fn monitors_are_numbered_and_listed() {
    let list = two_monitors();
    assert_eq!(list.len(), 2);
    assert_eq!(list[0].index, 0);
    assert_eq!(list[1].index, 1);
    assert_eq!(
        log_monitors(&list),
        vec![
            "detected 2 monitor(s):".to_string(),
            "  [0] EPSON Projector pos=(-1920, -5) size=1920x1080 scale=2".to_string(),
            "  [1] Color LCD (primary) pos=(0, -5) size=1920x1080 scale=2".to_string(),
        ]
    );
    assert_eq!(log_monitors(&vec![]), vec!["no monitors found".to_string()]);
}

#[test]
fn the_chosen_monitor_is_covered() {
    let list = two_monitors();
    let name = |wanted| select_monitor(&list, wanted).map(|m| m.name);
    assert_eq!(name(Some(0)).as_deref(), Some("EPSON Projector"));
    assert_eq!(name(Some(1)).as_deref(), Some("Color LCD"));
    assert_eq!(name(Some(7)).as_deref(), Some("Color LCD"));
    assert_eq!(name(None).as_deref(), Some("Color LCD"));
    assert_eq!(name(Some(-1)), None);
    assert_eq!(name(Some(i32::MIN)), None);
    assert!(select_monitor(&vec![], None).is_none());
    let dull = number_monitors(&vec![display("a", 0, false), display("b", 1, false)]);
    assert_eq!(select_monitor(&dull, None).map(|m| m.name).as_deref(), Some("a"));
}

#[test]
fn a_missing_monitor_is_reported() {
    let list = two_monitors();
    assert_eq!(
        missing_monitor_notice(&list, Some(7)).as_deref(),
        Some("monitor index 7 not found, fallback to primary")
    );
    assert_eq!(
        missing_monitor_notice(&list, Some(2)).as_deref(),
        Some("monitor index 2 not found, fallback to primary")
    );
    for wanted in [None, Some(0), Some(1), Some(-1), Some(-7)] {
        assert_eq!(missing_monitor_notice(&list, wanted), None);
    }
    assert_eq!(missing_monitor_notice(&vec![], Some(7)), None);
    let m = OverlayAttachMode::Monitor;
    let plan = plan_overlay(80, Some(7), &list, m, Platform::Other, None);
    assert_eq!(
        plan.missing_monitor.as_deref(),
        Some("monitor index 7 not found, fallback to primary")
    );
    assert_eq!(plan.monitor.map(|m| m.index), Some(1));
    assert!(plan_overlay(80, Some(0), &list, m, Platform::Other, None).missing_monitor.is_none());
}

#[test]
fn answers_to_the_question_for_a_monitor() {
    let list = two_monitors();
    let answer = |s: &str| prompt_monitor_index(&list, Some(s));
    assert_eq!(default_monitor_index(&list), 1);
    assert_eq!(default_monitor_index(&vec![]), 0);
    assert_eq!(answer("\n"), Some(1));
    assert_eq!(answer(" 0 \r\n"), Some(0));
    assert_eq!(answer("+1"), Some(1));
    assert_eq!(answer("-1\n"), Some(-1));
    assert_eq!(answer("2\n"), None);
    assert_eq!(answer("-2\n"), None);
    assert_eq!(answer("-2147483648"), None);
    assert_eq!(answer("first\n"), None);
    assert_eq!(answer("99999999999"), None);
    assert_eq!(prompt_monitor_index(&list, None), Some(1));
}

#[test]
fn the_question_for_a_monitor() {
    assert_eq!(
        monitor_question(0),
        "请选择弹幕显示器编号（回车默认 0，输入 -1 为不显示悬浮层）: "
    );
    assert_eq!(invalid_monitor_notice(" x \n"), "无效编号：x，请重新输入。");
}

#[test]
fn attach_modes_have_labels() {
    assert_eq!(overlay_attach_mode_label(OverlayAttachMode::Monitor), "monitor");
    assert_eq!(
        overlay_attach_mode_label(OverlayAttachMode::FullscreenWindow),
        "fullscreen-window"
    );
    assert_eq!(
        overlay_attach_mode_label(OverlayAttachMode::FrontmostWindow),
        "frontmost-window"
    );
}

#[test]
fn where_the_window_is_opened() {
    let monitor = select_monitor(&two_monitors(), Some(0));
    assert_eq!(
        plan_viewport(&monitor, Platform::MacOs),
        ViewportPlan {
            maximized: false,
            bounds: Some(PixelRect { x: -1920, y: -5, width: 1920, height: 1080 }),
        }
    );
    assert_eq!(
        plan_viewport(&monitor, Platform::Windows),
        ViewportPlan {
            maximized: true,
            bounds: Some(PixelRect { x: -1920, y: -5, width: 320, height: 200 }),
        }
    );
    let mut tiny = monitor;
    if let Some(m) = tiny.as_mut() {
        m.width = 10;
        m.height = 10;
    }
    assert_eq!(
        plan_viewport(&tiny, Platform::MacOs).bounds,
        Some(PixelRect { x: -1920, y: -5, width: 200, height: 120 })
    );
    assert_eq!(
        plan_viewport(&None, Platform::MacOs),
        ViewportPlan { maximized: false, bounds: None }
    );
    assert_eq!(
        plan_viewport(&None, Platform::Other),
        ViewportPlan { maximized: true, bounds: None }
    );
}

#[test]
fn how_the_overlay_is_opened() {
    let list = two_monitors();
    let front = OverlayAttachMode::FrontmostWindow;
    let plan = plan_overlay(3000, Some(0), &list, front, Platform::MacOs, None);
    assert_eq!(plan.ws_url, "ws://127.0.0.1:3000/ws");
    assert!(!plan.warn_no_following);
    assert!(plan.try_native_helper);
    assert_eq!(plan.monitor.map(|m| m.index), Some(0));
    assert!(!plan.viewport.maximized);

    let plan = plan_overlay(80, None, &list, front, Platform::Other, None);
    assert_eq!(plan.ws_url, "ws://127.0.0.1:80/ws");
    assert!(plan.warn_no_following);
    assert!(!plan.try_native_helper);
    assert_eq!(plan.monitor.map(|m| m.index), Some(1));
    assert!(plan.viewport.maximized);

    let plan = plan_overlay(80, None, &list, front, Platform::MacOs, Some("eframe"));
    assert!(!plan.try_native_helper);
    let m = OverlayAttachMode::Monitor;
    assert!(!plan_overlay(80, None, &list, m, Platform::MacOs, None).try_native_helper);
    assert!(!plan_overlay(80, None, &list, m, Platform::Other, None).warn_no_following);
}

#[test]
fn settings_of_the_helper_window() {
    assert!(macos_native_helper_overlay_enabled(None));
    assert!(macos_native_helper_overlay_enabled(Some("Eframe")));
    assert!(!macos_native_helper_overlay_enabled(Some("eframe")));
    assert!(!macos_native_helper_overlay_enabled(Some("EFRAME")));
    assert_eq!(macos_helper_window_kind(None), MacHelperWindowKind::Panel);
    assert_eq!(macos_helper_window_kind(Some("panel")), MacHelperWindowKind::Panel);
    assert_eq!(macos_helper_window_kind(Some("PANEL")), MacHelperWindowKind::Panel);
    assert_eq!(macos_helper_window_kind(Some("window")), MacHelperWindowKind::Window);
    assert_eq!(macos_helper_window_kind_label(MacHelperWindowKind::Panel), "panel");
    assert_eq!(macos_helper_window_kind_label(MacHelperWindowKind::Window), "window");
    for on in ["1", "true", "TRUE", "yes", "YES"] {
        assert!(macos_ns_window_hacks_enabled(Some(on)));
    }
    for off in ["", "0", "True", "on"] {
        assert!(!macos_ns_window_hacks_enabled(Some(off)));
    }
    assert!(!macos_ns_window_hacks_enabled(None));
}

#[test]
fn behavior_and_style_of_the_helper_window() {
    assert_eq!(
        macos_helper_collection_behavior(MacHelperWindowKind::Panel),
        1 | 1 << 6 | 1 << 8 | 1 << 18
    );
    assert_eq!(
        macos_helper_collection_behavior(MacHelperWindowKind::Window),
        1 << 1 | 1 << 6 | 1 << 8 | 1 << 18
    );
    assert_eq!(overlay_collection_behavior(0), 0x141);
    assert_eq!(overlay_collection_behavior(0x1002), 0x1143);
    assert_eq!(helper_style_mask(MacHelperWindowKind::Panel), 1 << 7);
    assert_eq!(helper_style_mask(MacHelperWindowKind::Window), 0);
}

#[test]
fn place_and_page_of_the_helper_window() {
    assert_eq!(
        macos_native_helper_overlay_url(3000),
        "http://127.0.0.1:3000/screen?overlay=helper&transparent=1"
    );
    let list = two_monitors();
    let first = PixelRect { x: -1920, y: -5, width: 1920, height: 1080 };
    assert_eq!(macos_monitor_bounds(&list[0]), first);
    assert_eq!(macos_native_helper_fallback_bounds(Some(&list[0])), first);
    assert_eq!(
        macos_native_helper_fallback_bounds(None),
        PixelRect { x: 80, y: 80, width: 1280, height: 720 }
    );
    let edge = |v: &[f32]| {
        let edges: Vec<Single> = v.iter().map(|e| single(*e)).collect();
        f32::from_bits(macos_desktop_bottom_edge(&edges).bits)
    };
    assert_eq!(edge(&[1080.0, 1440.0, 900.0]), 1440.0);
    assert_eq!(edge(&[-10.0]), 0.0);
    assert_eq!(edge(&[]), 0.0);
    assert_eq!(edge(&[f32::NAN, 5.0]), 5.0);
}

#[test]
fn the_level_of_the_overlay() {
    assert_eq!(SCREEN_SAVER_LEVEL_KEY, 13);
    assert_eq!(macos_overlay_window_level(Some("26"), 1500), 26);
    assert_eq!(macos_overlay_window_level(Some("0"), 1500), 0);
    assert_eq!(macos_overlay_window_level(Some("5000"), 1000), 5000);
    assert_eq!(macos_overlay_window_level(Some("5001"), 1000), 1000);
    assert_eq!(macos_overlay_window_level(Some("-1"), 1000), 1000);
    assert_eq!(macos_overlay_window_level(Some("high"), 1000), 1000);
    assert_eq!(macos_overlay_window_level(None, 1000), 1000);
    assert_eq!(macos_overlay_window_level(None, 0), 1500);
    assert_eq!(macos_overlay_window_level(None, -3), 1500);
}

#[test]
fn permissions_are_asked_for_once() {
    let mut prompted = false;
    assert!(!should_request_permission(true, &mut prompted));
    assert!(!prompted);
    assert!(should_request_permission(false, &mut prompted));
    assert!(prompted);
    assert!(!should_request_permission(false, &mut prompted));
}

#[test]
fn hints_are_given_once() {
    let mut printed = false;
    let first = macos_log_accessibility_hint_once(&mut printed);
    assert!(printed);
    assert_eq!(first.len(), 3);
    assert_eq!(first[0].level, LogLevel::Warn);
    assert_eq!(first[0].source, LogSource::App);
    assert_eq!(first[2].text, "未授权时会退回到普通窗口枚举，全屏 Space 场景可能失效");
    assert!(macos_log_accessibility_hint_once(&mut printed).is_empty());

    let mut printed = false;
    let first = macos_log_screen_capture_hint_once(&mut printed);
    assert_eq!(first.len(), 4);
    assert_eq!(
        first[3].text,
        "这会让原生全屏 Space 下的窗口匹配与 bounds 同步变得不稳定"
    );
    assert!(macos_log_screen_capture_hint_once(&mut printed).is_empty());

    let mut printed = false;
    let first = macos_log_ns_window_hacks_hint_once(&mut printed);
    assert_eq!(first.len(), 2);
    assert_eq!(first[0].level, LogLevel::Info);
    assert_eq!(
        first[0].text,
        "macOS raw NSWindow patch path is disabled by default for stability"
    );
    assert!(macos_log_ns_window_hacks_hint_once(&mut printed).is_empty());
}

#[test]
fn fonts_are_looked_for_and_preferred() {
    assert_eq!(candidate_cjk_font_paths(Platform::Windows).len(), 5);
    assert_eq!(
        candidate_cjk_font_paths(Platform::MacOs)[0],
        "/System/Library/Fonts/PingFang.ttc"
    );
    assert_eq!(
        candidate_cjk_font_paths(Platform::Other)[2],
        "/usr/share/fonts/truetype/wqy/wqy-microhei.ttc"
    );
    assert_eq!(font_key(0), "cjk_0");
    assert_eq!(font_key(12), "cjk_12");
    let mut family = vec!["Ubuntu-Light".to_string(), "emoji".to_string()];
    prefer_loaded_fonts(&mut family, &vec!["cjk_0".to_string(), "cjk_2".to_string()]);
    assert_eq!(family.join(" "), "cjk_0 cjk_2 Ubuntu-Light emoji");
}

#[test]
fn only_a_windows_console_needs_a_code_page() {
    assert_eq!(enable_utf8_console(Platform::Windows), Some(65001));
    assert_eq!(enable_utf8_console(Platform::MacOs), None);
    assert_eq!(enable_utf8_console(Platform::Other), None);
}
