//! How the overlay is opened.

use vstd::prelude::*;

use crate::config::{OverlayAttachMode, Platform};
use crate::decimal;
use crate::follow;
use crate::helper;
use crate::helper::PixelRect;
use crate::monitors;
use crate::monitors::MonitorSpec;
use crate::text;

verus! {

/// What the overlay covers, as it is shown.
pub open spec fn attach_mode_label(mode: OverlayAttachMode) -> Seq<char> {
    match mode {
        OverlayAttachMode::Monitor => "monitor"@,
        OverlayAttachMode::FullscreenWindow => "fullscreen-window"@,
        OverlayAttachMode::FrontmostWindow => "frontmost-window"@,
    }
}

/// What the overlay covers, as it is shown.
pub fn overlay_attach_mode_label(mode: OverlayAttachMode) -> (r: &'static str)
    ensures
        r@ == attach_mode_label(mode),
{
    match mode {
        OverlayAttachMode::Monitor => "monitor",
        OverlayAttachMode::FullscreenWindow => "fullscreen-window",
        OverlayAttachMode::FrontmostWindow => "frontmost-window",
    }
}

/// Where and how large the window of the overlay is opened.
#[derive(Clone, Copy, Debug, PartialEq, Eq, Structural)]
pub struct ViewportPlan {
    pub maximized: bool,
    pub bounds: Option<PixelRect>,
}

/// Where the window is opened on the chosen monitor. On macOS it gets the
/// bounds of the monitor, at least 200 by 120 pixels; elsewhere it is opened
/// small on the monitor and maximized there.
pub open spec fn viewport_plan(monitor: Option<MonitorSpec>, platform: Platform) -> ViewportPlan {
    match monitor {
        Some(m) => if platform is MacOs {
            ViewportPlan {
                maximized: false,
                bounds: Some(
                    PixelRect {
                        x: m.x,
                        y: m.y,
                        width: if m.width < 200 {
                            200
                        } else {
                            m.width
                        },
                        height: if m.height < 120 {
                            120
                        } else {
                            m.height
                        },
                    },
                ),
            }
        } else {
            ViewportPlan {
                maximized: true,
                bounds: Some(PixelRect { x: m.x, y: m.y, width: 320, height: 200 }),
            }
        },
        None => ViewportPlan { maximized: !(platform is MacOs), bounds: None },
    }
}

/// Decides where the window is opened.
pub fn plan_viewport(monitor: &Option<MonitorSpec>, platform: Platform) -> (r: ViewportPlan)
    ensures
        r == viewport_plan(*monitor, platform),
{
    let macos = match platform {
        Platform::MacOs => true,
        _ => false,
    };
    match monitor {
        Some(m) => {
            if macos {
                let width: u32 = if m.width < 200 {
                    200
                } else {
                    m.width
                };
                let height: u32 = if m.height < 120 {
                    120
                } else {
                    m.height
                };
                ViewportPlan {
                    maximized: false,
                    bounds: Some(PixelRect { x: m.x, y: m.y, width, height }),
                }
            } else {
                ViewportPlan {
                    maximized: true,
                    bounds: Some(PixelRect { x: m.x, y: m.y, width: 320, height: 200 }),
                }
            }
        },
        None => ViewportPlan { maximized: !macos, bounds: None },
    }
}

/// How the overlay is opened.
#[derive(Debug)]
pub struct OverlayPlan {
    /// Where comments come from.
    pub ws_url: String,
    /// Say that windows cannot be followed here.
    pub warn_no_following: bool,
    /// The monitor that was chosen.
    pub monitor: Option<MonitorSpec>,
    /// Report that the wanted monitor does not exist.
    pub missing_monitor: Option<String>,
    /// Try a window of its own first.
    pub try_native_helper: bool,
    /// The window of the application.
    pub viewport: ViewportPlan,
}

/// The address that comments come from.
pub open spec fn feed_url(port: u16) -> Seq<char> {
    "ws://127.0.0.1:"@ + decimal::decimal(port as int) + "/ws"@
}

/// Decides how the overlay is opened, from the port of the server, the monitors
/// and the number of the chosen one, what is to be covered, and the setting for
/// the backend.
pub fn plan_overlay(
    port: u16,
    monitor_index: Option<i32>,
    list: &Vec<MonitorSpec>,
    attach_mode: OverlayAttachMode,
    platform: Platform,
    backend: Option<&str>,
) -> (r: OverlayPlan)
    ensures
        r.ws_url@ == feed_url(port),
        r.warn_no_following == (!(platform is MacOs) && attach_mode is FrontmostWindow),
        r.monitor == (match monitors::selected(list@, monitor_index) {
            Some(k) => Some(list@[k]),
            None => None,
        }),
        text::view_option(r.missing_monitor) == monitors::missing_notice(list@, monitor_index),
        r.try_native_helper == (follow::tracks_windows(attach_mode, platform) && !(
        helper::is_set_to(backend, "eframe"@) || helper::is_set_to(backend, "EFRAME"@))),
        r.viewport == viewport_plan(r.monitor, platform),
{
    let mut ws_url = "ws://127.0.0.1:".to_owned();
    decimal::append_u64(&mut ws_url, port as u64);
    ws_url.append("/ws");
    let warn_no_following = match (platform, attach_mode) {
        (Platform::MacOs, _) => false,
        (_, OverlayAttachMode::FrontmostWindow) => true,
        _ => false,
    };
    let monitor = monitors::select_monitor(list, monitor_index);
    let missing_monitor = monitors::missing_monitor_notice(list, monitor_index);
    let try_native_helper = follow::overlay_attach_mode_uses_window_tracking(
        attach_mode,
        platform,
    ) && helper::macos_native_helper_overlay_enabled(backend);
    let viewport = plan_viewport(&monitor, platform);
    OverlayPlan {
        ws_url,
        warn_no_following,
        monitor,
        missing_monitor,
        try_native_helper,
        viewport,
    }
}

/// The window is opened at the place of the chosen monitor. On macOS it is as
/// large as the monitor, at least 200 by 120, and not maximized; elsewhere it is
/// maximized and its size does not depend on the monitor. Without a monitor
/// nothing is said of its place.
pub proof fn lemma_where_the_window_is_opened(monitor: Option<MonitorSpec>, platform: Platform)
    ensures
        ({
            let v = viewport_plan(monitor, platform);
            &&& v.maximized <==> platform !is MacOs
            &&& v.bounds is Some <==> monitor is Some
            &&& monitor matches Some(m) ==> (v.bounds matches Some(b) && {
                &&& b.x == m.x && b.y == m.y
                &&& platform is MacOs && m.width >= 200 ==> b.width == m.width
                &&& platform is MacOs && m.width < 200 ==> b.width == 200
                &&& platform is MacOs && m.height >= 120 ==> b.height == m.height
                &&& platform is MacOs && m.height < 120 ==> b.height == 120
                &&& platform !is MacOs ==> b.width == 320 && b.height == 200
            })
        }),
{
}

/// Comments come from the server on this machine, at the port that it has.
pub proof fn lemma_feed_url(port: u16, other: u16)
    ensures
        text::begins(feed_url(port), "ws://127.0.0.1:"@),
        feed_url(port) == "ws://127.0.0.1:"@ + decimal::decimal(port as int) + "/ws"@,
        port != other ==> decimal::decimal(port as int) != decimal::decimal(other as int),
{
    let scheme = "ws://127.0.0.1:"@;
    let rest = decimal::decimal(port as int) + "/ws"@;
    text::lemma_has(rest, scheme, Seq::empty(), rest);
    assert(feed_url(port) =~= scheme + rest);
    decimal::lemma_decimal_reads_back(port as int);
    decimal::lemma_decimal_reads_back(other as int);
}

/// Each way to attach the overlay is shown by a name of its own.
pub proof fn lemma_attach_mode_labels(mode: OverlayAttachMode)
    ensures
        mode is Monitor <==> attach_mode_label(mode) == "monitor"@,
        mode is FullscreenWindow <==> attach_mode_label(mode) == "fullscreen-window"@,
        mode is FrontmostWindow <==> attach_mode_label(mode) == "frontmost-window"@,
{
    reveal_strlit("monitor");
    reveal_strlit("fullscreen-window");
    reveal_strlit("frontmost-window");
    assert("monitor"@.len() == 7 && "fullscreen-window"@.len() == 17);
    assert("frontmost-window"@.len() == 16);
}

} // verus!
