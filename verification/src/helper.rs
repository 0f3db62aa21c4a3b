//! Settings of the overlay on macOS, where it has a window of its own.

use vstd::prelude::*;

use crate::decimal;
use crate::ieee::Single;
use crate::monitors::MonitorSpec;
use crate::text;
use crate::tunnel_log;
use crate::tunnel_log::{LogEntry, LogLevel, LogSource, Logged};

verus! {

/// The kind of window that holds the overlay.
#[derive(Clone, Copy, Debug, PartialEq, Eq, Structural)]
pub enum MacHelperWindowKind {
    Window,
    Panel,
}

/// The window moves to the active space.
pub const MOVE_TO_ACTIVE_SPACE: usize = 0x2;

/// The window is in all spaces.
pub const CAN_JOIN_ALL_SPACES: usize = 0x1;

/// The window is left out when windows are cycled through.
pub const IGNORES_CYCLE: usize = 0x40;

/// The window accompanies full screen windows.
pub const FULL_SCREEN_AUXILIARY: usize = 0x100;

/// The window accompanies the windows of all applications.
pub const CAN_JOIN_ALL_APPLICATIONS: usize = 0x4_0000;

/// The window does not take the focus.
pub const NONACTIVATING_PANEL: usize = 0x80;

/// The key under which the system names the level of screen savers, which is
/// the level of the overlay by default.
pub const SCREEN_SAVER_LEVEL_KEY: i32 = 13;

/// The level of the overlay where the system names none.
pub const FALLBACK_LEVEL: isize = 1500;

/// `setting` holds `value`.
pub open spec fn is_set_to(setting: Option<&str>, value: Seq<char>) -> bool {
    setting matches Some(s) && s@ == value
}

fn set_to(setting: Option<&str>, value: &str) -> (r: bool)
    ensures
        r == is_set_to(setting, value@),
{
    match setting {
        Some(s) => text::same_text(s, value),
        None => false,
    }
}

/// Whether the overlay gets a window of its own, from the setting for its
/// backend.
pub fn macos_native_helper_overlay_enabled(backend: Option<&str>) -> (r: bool)
    ensures
        r == !(is_set_to(backend, "eframe"@) || is_set_to(backend, "EFRAME"@)),
{
    !(set_to(backend, "eframe") || set_to(backend, "EFRAME"))
}

/// The kind of window that holds the overlay, from its setting: a panel unless
/// something else is set.
pub fn macos_helper_window_kind(kind: Option<&str>) -> (r: MacHelperWindowKind)
    ensures
        r == (if kind is None || is_set_to(kind, "panel"@) || is_set_to(kind, "PANEL"@) {
            MacHelperWindowKind::Panel
        } else {
            MacHelperWindowKind::Window
        }),
{
    if kind.is_none() || set_to(kind, "panel") || set_to(kind, "PANEL") {
        MacHelperWindowKind::Panel
    } else {
        MacHelperWindowKind::Window
    }
}

/// The kind of window as it is shown.
pub open spec fn kind_label(kind: MacHelperWindowKind) -> Seq<char> {
    match kind {
        MacHelperWindowKind::Window => "window"@,
        MacHelperWindowKind::Panel => "panel"@,
    }
}

/// The kind of window as it is shown.
pub fn macos_helper_window_kind_label(kind: MacHelperWindowKind) -> (r: &'static str)
    ensures
        r@ == kind_label(kind),
{
    match kind {
        MacHelperWindowKind::Window => "window",
        MacHelperWindowKind::Panel => "panel",
    }
}

/// What a window of this kind does when spaces, applications and full screen
/// windows change: a panel is in all spaces, a window moves to the active one.
pub fn macos_helper_collection_behavior(window_kind: MacHelperWindowKind) -> (r: usize)
    ensures
        r == (match window_kind {
            MacHelperWindowKind::Window => MOVE_TO_ACTIVE_SPACE + IGNORES_CYCLE
                + FULL_SCREEN_AUXILIARY + CAN_JOIN_ALL_APPLICATIONS,
            MacHelperWindowKind::Panel => CAN_JOIN_ALL_SPACES + IGNORES_CYCLE
                + FULL_SCREEN_AUXILIARY + CAN_JOIN_ALL_APPLICATIONS,
        }),
{
    assert(0x2usize | 0x40usize | 0x100usize | 0x4_0000usize == 0x4_0142usize) by (bit_vector);
    assert(0x1usize | 0x40usize | 0x100usize | 0x4_0000usize == 0x4_0141usize) by (bit_vector);
    match window_kind {
        MacHelperWindowKind::Window => MOVE_TO_ACTIVE_SPACE | IGNORES_CYCLE
            | FULL_SCREEN_AUXILIARY | CAN_JOIN_ALL_APPLICATIONS,
        MacHelperWindowKind::Panel => CAN_JOIN_ALL_SPACES | IGNORES_CYCLE | FULL_SCREEN_AUXILIARY
            | CAN_JOIN_ALL_APPLICATIONS,
    }
}

/// What the window of the application does instead of `current`: it is also in
/// all spaces, left out of the cycle and with full screen windows.
pub fn overlay_collection_behavior(current: usize) -> (r: usize)
    ensures
        r == current | (CAN_JOIN_ALL_SPACES | IGNORES_CYCLE | FULL_SCREEN_AUXILIARY),
{
    current | (CAN_JOIN_ALL_SPACES | IGNORES_CYCLE | FULL_SCREEN_AUXILIARY)
}

/// The style of a window of this kind: neither has a border, and a panel does
/// not take the focus.
pub fn helper_style_mask(window_kind: MacHelperWindowKind) -> (r: usize)
    ensures
        r == (match window_kind {
            MacHelperWindowKind::Window => 0usize,
            MacHelperWindowKind::Panel => NONACTIVATING_PANEL,
        }),
{
    match window_kind {
        MacHelperWindowKind::Window => 0,
        MacHelperWindowKind::Panel => NONACTIVATING_PANEL,
    }
}

/// The address of the page that the overlay shows.
pub fn macos_native_helper_overlay_url(port: u16) -> (r: String)
    ensures
        r@ == "http://127.0.0.1:"@ + decimal::decimal(port as int)
            + "/screen?overlay=helper&transparent=1"@,
{
    let mut r = "http://127.0.0.1:".to_owned();
    decimal::append_u64(&mut r, port as u64);
    r.append("/screen?overlay=helper&transparent=1");
    r
}

/// A rectangle in whole pixels.
#[derive(Clone, Copy, Debug, PartialEq, Eq, Structural)]
pub struct PixelRect {
    pub x: i32,
    pub y: i32,
    pub width: u32,
    pub height: u32,
}

/// Where a monitor is.
pub open spec fn monitor_rect(m: MonitorSpec) -> PixelRect {
    PixelRect { x: m.x, y: m.y, width: m.width, height: m.height }
}

/// Where a monitor is.
pub fn macos_monitor_bounds(monitor: &MonitorSpec) -> (r: PixelRect)
    ensures
        r == monitor_rect(*monitor),
{
    PixelRect { x: monitor.x, y: monitor.y, width: monitor.width, height: monitor.height }
}

/// The place of the overlay where it follows no window: the chosen monitor, or
/// a rectangle of a usual size.
pub fn macos_native_helper_fallback_bounds(selected_monitor: Option<&MonitorSpec>) -> (r: PixelRect)
    ensures
        r == (match selected_monitor {
            Some(m) => monitor_rect(*m),
            None => PixelRect { x: 80, y: 80, width: 1280, height: 720 },
        }),
{
    match selected_monitor {
        Some(monitor) => macos_monitor_bounds(monitor),
        None => PixelRect { x: 80, y: 80, width: 1280, height: 720 },
    }
}

/// `r` is the greatest of zero and the numbers in `edges`.
pub open spec fn is_lowest_edge(edges: Seq<Single>, r: Single) -> bool {
    &&& !r.nan()
    &&& r.value() == 0 || exists|i: int| 0 <= i < edges.len() && #[trigger] edges[i] == r
    &&& r.value() >= 0
    &&& forall|i: int|
        0 <= i < edges.len() && !(#[trigger] edges[i]).nan() ==> edges[i].value() <= r.value()
}

/// The lower edge of the desktop, from the lower edges of its monitors.
pub fn macos_desktop_bottom_edge(bottom_edges: &Vec<Single>) -> (r: Single)
    ensures
        is_lowest_edge(bottom_edges@, r),
{
    let mut r = Single::whole(0);
    proof {
        assert(Single::units(0) == 0) by (nonlinear_arith);
    }
    let mut i: usize = 0;
    while i < bottom_edges.len()
        invariant
            i <= bottom_edges.len(),
            is_lowest_edge(bottom_edges@.take(i as int), r),
        decreases bottom_edges.len() - i,
    {
        let edge = bottom_edges[i];
        let ghost before = r;
        let ghost seen = bottom_edges@.take(i as int);
        let ghost more = bottom_edges@.take(i + 1);
        if r.lt(edge) {
            r = edge;
        }
        assert(more[i as int] == edge);
        assert forall|k: int| 0 <= k < more.len() && !(#[trigger] more[k]).nan() implies more[k].value()
            <= r.value() by {
            if k < i {
                assert(more[k] == seen[k]);
            }
        }
        proof {
            if r == before && r.value() != 0 {
                let k = choose|k: int| 0 <= k < seen.len() && #[trigger] seen[k] == r;
                assert(more[k] == r);
            }
        }
        i = i + 1;
    }
    assert(bottom_edges@.take(i as int) =~= bottom_edges@);
    r
}

/// The level that a setting asks for, where it is from 0 to 5000.
pub open spec fn asked_level(setting: Option<&str>) -> Option<int> {
    match setting {
        Some(s) => match decimal::signed_decimal(s@) {
            Some(n) => if 0 <= n <= 5000 {
                Some(n)
            } else {
                None
            },
            None => None,
        },
        None => None,
    }
}

/// The level of the overlay among the windows: the one that is set, else the
/// one that the system names under `SCREEN_SAVER_LEVEL_KEY`, else a fixed one.
pub fn macos_overlay_window_level(setting: Option<&str>, system_level: isize) -> (r: isize)
    ensures
        r == (match asked_level(setting) {
            Some(n) => n,
            None => if system_level > 0 {
                system_level as int
            } else {
                FALLBACK_LEVEL as int
            },
        }),
{
    if let Some(s) = setting {
        if let Some(level) = decimal::parse_i32(s) {
            if 0 <= level && level <= 5000 {
                return level as isize;
            }
        }
    }
    if system_level > 0 {
        system_level
    } else {
        FALLBACK_LEVEL
    }
}

/// Whether the window of the application is restyled, from its setting.
pub fn macos_ns_window_hacks_enabled(setting: Option<&str>) -> (r: bool)
    ensures
        r == (is_set_to(setting, "1"@) || is_set_to(setting, "true"@) || is_set_to(
            setting,
            "TRUE"@,
        ) || is_set_to(setting, "yes"@) || is_set_to(setting, "YES"@)),
{
    set_to(setting, "1") || set_to(setting, "true") || set_to(setting, "TRUE") || set_to(
        setting,
        "yes",
    ) || set_to(setting, "YES")
}

/// Whether the user is to be asked for a permission: unless it is given, and
/// once only.
pub fn should_request_permission(trusted: bool, prompted: &mut bool) -> (r: bool)
    ensures
        r == (!trusted && !*old(prompted)),
        *final(prompted) == (*old(prompted) || !trusted),
{
    if trusted || *prompted {
        return false;
    }
    *prompted = true;
    true
}

/// Entries of one level with these texts.
pub open spec fn hints(level: LogLevel, texts: Seq<Seq<char>>) -> Seq<Logged> {
    texts.map_values(|t: Seq<char>| tunnel_log::logged(LogSource::App, level, t))
}

/// Gives the hints with these texts, unless they were given before.
fn hints_once(printed: &mut bool, level: LogLevel, texts: &Vec<&'static str>) -> (r: Vec<LogEntry>)
    ensures
        *final(printed),
        tunnel_log::view_entries(r@) == (if *old(printed) {
            Seq::empty()
        } else {
            hints(level, texts@.map_values(|t: &'static str| t@))
        }),
{
    let ghost wanted = hints(level, texts@.map_values(|t: &'static str| t@));
    let mut r: Vec<LogEntry> = Vec::new();
    if *printed {
        assert(tunnel_log::view_entries(r@) =~= Seq::<Logged>::empty());
        return r;
    }
    *printed = true;
    let mut i: usize = 0;
    while i < texts.len()
        invariant
            i <= texts.len(),
            wanted == hints(level, texts@.map_values(|t: &'static str| t@)),
            r.len() == i,
            forall|k: int| 0 <= k < i ==> #[trigger] r@[k]@ == wanted[k],
        decreases texts.len() - i,
    {
        r.push(LogEntry { source: LogSource::App, level, text: texts[i].to_owned() });
        i = i + 1;
    }
    assert(tunnel_log::view_entries(r@) =~= wanted);
    r
}

/// The hints on restyling the window of the application.
pub open spec fn ns_window_hints() -> Seq<Seq<char>> {
    seq![
        "macOS raw NSWindow patch path is disabled by default for stability"@,
        "set DANMAKU_MACOS_NS_WINDOW_HACKS=1 to re-enable the experimental AppKit overlay patch"@,
    ]
}

/// The hints on the permission to use the accessibility interface.
pub open spec fn accessibility_hints() -> Seq<Seq<char>> {
    seq![
        "macOS 全屏窗口跟随优先依赖辅助功能权限（Accessibility）"@,
        "请到 系统设置 -> 隐私与安全性 -> 辅助功能 中允许当前终端/应用"@,
        "未授权时会退回到普通窗口枚举，全屏 Space 场景可能失效"@,
    ]
}

/// The hints on the permission to record the screen.
pub open spec fn screen_capture_hints() -> Seq<Seq<char>> {
    seq![
        "macOS 窗口跟随同样建议授予屏幕录制（Screen Recording）权限"@,
        "请到 系统设置 -> 隐私与安全性 -> 屏幕录制 中允许当前终端/应用"@,
        "未授权时 Quartz / CGWindowListCopyWindowInfo 可能返回被过滤的窗口元数据"@,
        "这会让原生全屏 Space 下的窗口匹配与 bounds 同步变得不稳定"@,
    ]
}

/// Hints that are given the first time only.
pub open spec fn first_time(printed: bool, entries: Seq<Logged>) -> Seq<Logged> {
    if printed {
        Seq::empty()
    } else {
        entries
    }
}

/// The hints on restyling the window of the application, the first time.
pub fn macos_log_ns_window_hacks_hint_once(printed: &mut bool) -> (r: Vec<LogEntry>)
    ensures
        *final(printed),
        tunnel_log::view_entries(r@) == first_time(
            *old(printed),
            hints(LogLevel::Info, ns_window_hints()),
        ),
{
    let mut texts: Vec<&'static str> = Vec::new();
    texts.push("macOS raw NSWindow patch path is disabled by default for stability");
    texts.push(
        "set DANMAKU_MACOS_NS_WINDOW_HACKS=1 to re-enable the experimental AppKit overlay patch",
    );
    assert(texts@.map_values(|t: &'static str| t@) =~= ns_window_hints());
    hints_once(printed, LogLevel::Info, &texts)
}

/// The hints on the accessibility permission, the first time.
pub fn macos_log_accessibility_hint_once(printed: &mut bool) -> (r: Vec<LogEntry>)
    ensures
        *final(printed),
        tunnel_log::view_entries(r@) == first_time(
            *old(printed),
            hints(LogLevel::Warn, accessibility_hints()),
        ),
{
    let mut texts: Vec<&'static str> = Vec::new();
    texts.push("macOS 全屏窗口跟随优先依赖辅助功能权限（Accessibility）");
    texts.push("请到 系统设置 -> 隐私与安全性 -> 辅助功能 中允许当前终端/应用");
    texts.push("未授权时会退回到普通窗口枚举，全屏 Space 场景可能失效");
    assert(texts@.map_values(|t: &'static str| t@) =~= accessibility_hints());
    hints_once(printed, LogLevel::Warn, &texts)
}

/// The hints on the permission to record the screen, the first time.
pub fn macos_log_screen_capture_hint_once(printed: &mut bool) -> (r: Vec<LogEntry>)
    ensures
        *final(printed),
        tunnel_log::view_entries(r@) == first_time(
            *old(printed),
            hints(LogLevel::Warn, screen_capture_hints()),
        ),
{
    let mut texts: Vec<&'static str> = Vec::new();
    texts.push("macOS 窗口跟随同样建议授予屏幕录制（Screen Recording）权限");
    texts.push("请到 系统设置 -> 隐私与安全性 -> 屏幕录制 中允许当前终端/应用");
    texts.push("未授权时 Quartz / CGWindowListCopyWindowInfo 可能返回被过滤的窗口元数据");
    texts.push("这会让原生全屏 Space 下的窗口匹配与 bounds 同步变得不稳定");
    assert(texts@.map_values(|t: &'static str| t@) =~= screen_capture_hints());
    hints_once(printed, LogLevel::Warn, &texts)
}

/// A setting asks for a level exactly where it is a number from 0 to 5000, and
/// asks for that number.
pub proof fn lemma_asked_level(setting: Option<&str>)
    ensures
        asked_level(setting) is Some <==> (setting matches Some(s)
            && decimal::signed_decimal(s@) matches Some(n) && 0 <= n <= 5000),
        asked_level(setting) matches Some(n) ==> decimal::signed_decimal(setting.unwrap()@) == Some(
            n,
        ),
{
}

/// A setting holds a value exactly where it is set and equal to it.
pub proof fn lemma_is_set_to(setting: Option<&str>, value: Seq<char>)
    ensures
        is_set_to(setting, value) <==> setting is Some && setting.unwrap()@ == value,
{
}

/// A monitor is where its corner and its size say.
pub proof fn lemma_monitor_rect(m: MonitorSpec)
    ensures
        monitor_rect(m).x == m.x,
        monitor_rect(m).y == m.y,
        monitor_rect(m).width == m.width,
        monitor_rect(m).height == m.height,
{
}

/// The lower edge of the desktop is no higher than that of any monitor, not
/// above zero, and that of a monitor unless it is zero.
pub proof fn lemma_lowest_edge(edges: Seq<Single>, r: Single, i: int)
    requires
        is_lowest_edge(edges, r),
        0 <= i < edges.len(),
    ensures
        !r.nan() && r.value() >= 0,
        !edges[i].nan() ==> edges[i].value() <= r.value(),
        r.value() > 0 ==> exists|k: int| 0 <= k < edges.len() && #[trigger] edges[k] == r,
{
}

/// Hints are entries of the program at one level, with these texts in order.
/// They are given the first time and not again.
pub proof fn lemma_hints(level: LogLevel, texts: Seq<Seq<char>>, entries: Seq<Logged>)
    ensures
        hints(level, texts).len() == texts.len(),
        forall|i: int|
            0 <= i < texts.len() ==> {
                &&& (#[trigger] hints(level, texts)[i]).text == texts[i]
                &&& hints(level, texts)[i].level == level
                &&& hints(level, texts)[i].source is App
            },
        first_time(false, entries) == entries,
        first_time(true, entries) == Seq::<Logged>::empty(),
{
}

/// Each kind of window is shown by a name of its own.
pub proof fn lemma_kind_labels(kind: MacHelperWindowKind)
    ensures
        kind is Panel <==> kind_label(kind) == "panel"@,
        kind is Window <==> kind_label(kind) == "window"@,
{
    reveal_strlit("panel");
    reveal_strlit("window");
    assert("panel"@.len() == 5 && "window"@.len() == 6);
}

} // verus!
