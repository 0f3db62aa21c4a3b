use liver::config::{OverlayAttachMode, Platform};
use liver::danmaku::{
    clamp_speed, normalize_color, parse_color_or_white, post_danmaku, DanmakuInput,
    DanmakuMessage, BAD_REQUEST, MAX_TEXT_CHARS,
};
use liver::ieee::{Double, Single};
use liver::lanes::{
    animation_step, choose_lane, counted_width, overlay_top_padding, stays_visible, Lanes,
};
use liver::pages::page_or_error;
use liver::session::{
    handle_socket, websocket_consumer_step, FeedAction, FeedEvent, SocketAction, SocketEvent,
    RECONNECT_PAUSE_MS,
};

fn single(v: f32) -> Single {
    Single { bits: v.to_bits() }
}

fn float(v: Single) -> f32 {
    f32::from_bits(v.bits)
}

fn doubles(v: &[f64]) -> Vec<Double> {
    v.iter().map(|x| Double { bits: x.to_bits() }).collect()
}

fn at(v: f64) -> Double {
    Double { bits: v.to_bits() }
}

fn input(text: &str, color: Option<&str>, speed: Option<f32>) -> DanmakuInput {
    DanmakuInput {
        text: text.to_string(),
        color: color.map(|c| c.to_string()),
        speed: speed.map(single),
    }
}

fn message(text: &str, color: &str, speed: f32) -> DanmakuMessage {
    DanmakuMessage { text: text.to_string(), color: color.to_string(), speed: single(speed) }
}

#[test]
fn a_comment_is_accepted() {
    let a = post_danmaku(input("你好，世界", Some("#ffffff"), Some(90.0))).unwrap();
    assert_eq!(a.message.text, "你好，世界");
    assert_eq!(a.message.color, "#ffffff");
    assert_eq!(float(a.message.speed), 90.0);
    assert!(a.response.ok);
    assert_eq!(a.response.message, "sent");
}

#[test]
fn what_is_left_out_has_defaults() {
    let a = post_danmaku(input("  hi\n", None, None)).unwrap();
    assert_eq!(a.message.text, "hi");
    assert_eq!(a.message.color, "#ffffff");
    assert_eq!(float(a.message.speed), 90.0);
}

#[test]
fn blank_comments_are_refused() {
    for text in ["", "   ", "\u{3000}\n\t"] {
        let e = post_danmaku(input(text, None, None)).unwrap_err();
        assert_eq!(e.status, 400);
        assert_eq!(e.status, BAD_REQUEST);
        assert!(!e.response.ok);
        assert_eq!(e.response.message, "text cannot be empty");
    }
}

#[test]
fn long_comments_are_refused() {
    assert_eq!(MAX_TEXT_CHARS, 120);
    let a = post_danmaku(input(&format!(" {} ", "字".repeat(120)), None, None)).unwrap();
    assert_eq!(a.message.text.chars().count(), 120);
    let e = post_danmaku(input(&"字".repeat(121), None, None)).unwrap_err();
    assert_eq!(e.status, 400);
    assert!(!e.response.ok);
    assert_eq!(e.response.message, "text too long (max 120 chars)");
}

#[test]
fn colors_are_normalized() {
    let normal = |s: &str| normalize_color(s.to_string());
    assert_eq!(normal("#1a2B3c"), "#1a2B3c");
    assert_eq!(normal("  #00ff00\n"), "#00ff00");
    for bad in ["", "#fff", "ffffff0", "#12345g", "#1234567", "red", "#字字", "# 12345"] {
        assert_eq!(normal(bad), "#ffffff", "{:?}", bad);
    }
    assert_eq!(normal(&normal(" #ABCDEF ")), "#ABCDEF");
}

#[test]
fn colors_become_bytes() {
    assert_eq!(parse_color_or_white("#1a2B3c"), [0x1a, 0x2b, 0x3c, 255]);
    assert_eq!(parse_color_or_white("#000000"), [0, 0, 0, 255]);
    assert_eq!(parse_color_or_white("#F09f0a"), [0xf0, 0x9f, 0x0a, 255]);
    for bad in ["", "#fff", " #112233", "#11223", "#11223x", "112233#"] {
        assert_eq!(parse_color_or_white(bad), [255, 255, 255, 255], "{:?}", bad);
    }
}

#[test]
fn speeds_are_clamped() {
    for (v, r) in [
        (90.0, 90.0),
        (39.9, 40.0),
        (40.0, 40.0),
        (240.0, 240.0),
        (240.1, 240.0),
        (-1.0, 40.0),
        (f32::INFINITY, 240.0),
        (f32::NEG_INFINITY, 40.0),
        (123.456, 123.456),
    ] {
        assert_eq!(float(clamp_speed(single(v))), r);
        assert_eq!(float(clamp_speed(clamp_speed(single(v)))), r);
        let a = post_danmaku(input("x", None, Some(v))).unwrap();
        assert_eq!(float(a.message.speed), r);
    }
    assert!(float(clamp_speed(single(f32::NAN))).is_nan());
}

#[test]
fn the_first_free_lane_is_taken() {
    assert_eq!(choose_lane(&doubles(&[3.0, 1.0, 0.5]), at(2.0)), 1);
    assert_eq!(choose_lane(&doubles(&[0.0, 0.0]), at(0.0)), 0);
    assert_eq!(choose_lane(&doubles(&[2.0, 9.0]), at(2.0)), 0);
}

#[test]
fn otherwise_the_lane_that_frees_up_first_is_taken() {
    assert_eq!(choose_lane(&doubles(&[5.0, 3.0, 4.0, 3.0]), at(2.0)), 1);
    assert_eq!(choose_lane(&doubles(&[f64::NAN, 7.0]), at(2.0)), 1);
    assert_eq!(choose_lane(&doubles(&[f64::INFINITY, f64::MAX, f64::NAN]), at(2.0)), 0);
    assert_eq!(choose_lane(&doubles(&[]), at(2.0)), 0);
}

#[test]
fn lanes_are_rebuilt_when_their_number_changes() {
    let mut lanes = Lanes::new();
    assert!(lanes.busy_until.is_empty());
    lanes.rebuild_lanes(0);
    assert_eq!(lanes.busy_until, doubles(&[0.0]));
    lanes.rebuild_lanes(3);
    assert_eq!(lanes.busy_until, doubles(&[0.0, 0.0, 0.0]));
    lanes.occupy(1, at(7.5));
    lanes.rebuild_lanes(3);
    assert_eq!(lanes.busy_until, doubles(&[0.0, 7.5, 0.0]));
    lanes.rebuild_lanes(2);
    assert_eq!(lanes.busy_until, doubles(&[0.0, 0.0]));
}

#[test]
fn comments_are_put_on_lanes() {
    let mut lanes = Lanes::new();
    let plan = lanes.plan_danmaku(&message("你好", "#ff0080", 500.0), 2, at(1.0)).unwrap();
    assert_eq!(plan.lane, 0);
    assert_eq!(plan.font_size, 26 + 6);
    assert_eq!(plan.color, [0xff, 0, 0x80, 255]);
    assert_eq!(float(plan.speed), 240.0);
    lanes.occupy(plan.lane, at(4.0));
    let plan = lanes.plan_danmaku(&message("fifteen letters", "?", 60.0), 2, at(1.5)).unwrap();
    assert_eq!(plan.lane, 1);
    assert_eq!(plan.font_size, 27);
    assert_eq!(plan.color, [255, 255, 255, 255]);
    assert_eq!(float(plan.speed), 60.0);
    lanes.occupy(plan.lane, at(3.0));
    let plan = lanes.plan_danmaku(&message("x", "#000000", 60.0), 2, at(2.0)).unwrap();
    assert_eq!(plan.lane, 1);
}

#[test]
fn blank_comments_are_not_shown() {
    let mut lanes = Lanes::new();
    lanes.rebuild_lanes(2);
    lanes.occupy(0, at(9.0));
    assert!(lanes.plan_danmaku(&message(" \u{3000}", "#000000", 60.0), 5, at(0.0)).is_none());
    assert_eq!(lanes.busy_until, doubles(&[9.0, 0.0]));
}

#[test]
fn widths_edges_and_steps() {
    assert_eq!(float(counted_width(single(12.0))), 30.0);
    assert_eq!(float(counted_width(single(30.5))), 30.5);
    assert_eq!(float(counted_width(single(f32::NAN))), 30.0);
    assert!(stays_visible(single(-19.9)));
    assert!(stays_visible(single(100.0)));
    assert!(!stays_visible(single(-20.0)));
    assert!(!stays_visible(single(-400.0)));
    assert!(!stays_visible(single(f32::NAN)));
    assert_eq!(float(animation_step(single(0.016))), 0.016);
    assert_eq!(float(animation_step(single(3.0))), 0.1);
    assert_eq!(float(animation_step(single(-1.0))), 0.0);
}

#[test]
fn the_room_above_the_lanes() {
    let m = OverlayAttachMode::Monitor;
    let w = OverlayAttachMode::FrontmostWindow;
    let f = OverlayAttachMode::FullscreenWindow;
    let padding = |mode, platform, asked: Option<f32>| {
        float(overlay_top_padding(mode, platform, asked.map(single)))
    };
    assert_eq!(padding(m, Platform::MacOs, None), 56.0);
    assert_eq!(padding(f, Platform::MacOs, None), 56.0);
    assert_eq!(padding(w, Platform::MacOs, None), 20.0);
    assert_eq!(padding(m, Platform::Windows, None), 20.0);
    assert_eq!(padding(m, Platform::Other, Some(0.0)), 0.0);
    assert_eq!(padding(m, Platform::MacOs, Some(300.0)), 300.0);
    assert_eq!(padding(m, Platform::MacOs, Some(300.1)), 56.0);
    assert_eq!(padding(m, Platform::Other, Some(-1.0)), 20.0);
    assert_eq!(padding(m, Platform::Other, Some(f32::NAN)), 20.0);
}

#[test]
fn what_the_server_does_with_a_connection() {
    match handle_socket(SocketEvent::Comment { json: "{}".to_string() }) {
        SocketAction::Send { json } => assert_eq!(json, "{}"),
        other => panic!("{:?}", other),
    }
    match handle_socket(SocketEvent::Lagged { skipped: 12 }) {
        SocketAction::Report { text } => {
            assert_eq!(text, "websocket lagged, skipped 12 messages")
        }
        other => panic!("{:?}", other),
    }
    match handle_socket(SocketEvent::Unserializable { reason: "r".to_string() }) {
        SocketAction::Report { text } => assert_eq!(text, "failed to serialize message: r"),
        other => panic!("{:?}", other),
    }
    for event in [SocketEvent::Sent, SocketEvent::ClientSpoke] {
        assert!(matches!(handle_socket(event), SocketAction::Wait));
    }
    for event in [
        SocketEvent::FeedClosed,
        SocketEvent::SendFailed,
        SocketEvent::ClientClosed,
        SocketEvent::ClientFailed,
    ] {
        assert!(matches!(handle_socket(event), SocketAction::End));
    }
}

#[test]
fn what_the_overlay_does_with_a_connection() {
    assert_eq!(RECONNECT_PAUSE_MS, 1200);
    let again = FeedAction::Reconnect { pause_ms: 1200 };
    let cases = [
        (FeedEvent::Connected, FeedAction::Read, None),
        (
            FeedEvent::ConnectFailed { reason: "r".to_string() },
            again,
            Some("websocket connect error: r"),
        ),
        (FeedEvent::Delivered, FeedAction::Read, None),
        (FeedEvent::OverlayGone, FeedAction::Stop, None),
        (
            FeedEvent::Unparsable { reason: "r".to_string() },
            FeedAction::Read,
            Some("failed to parse danmaku: r"),
        ),
        (FeedEvent::OtherFrame, FeedAction::Read, None),
        (FeedEvent::ServerClosed, again, None),
        (
            FeedEvent::ReadFailed { reason: "r".to_string() },
            again,
            Some("websocket read error: r"),
        ),
        (FeedEvent::StreamEnded, again, None),
    ];
    for (event, action, report) in cases {
        let step = websocket_consumer_step(event);
        assert_eq!(step.action, action);
        assert_eq!(step.report.as_deref(), report);
    }
}

#[test]
fn pages_or_why_they_are_missing() {
    assert_eq!(page_or_error("client", Ok("<html>".to_string())), "<html>");
    assert_eq!(
        page_or_error("screen", Err("not found".to_string())),
        "failed to load screen page: not found"
    );
}
