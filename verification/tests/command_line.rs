use liver::config::{
    default_overlay_attach_mode, parse_args, with_env_port, AppConfig, OverlayAttachMode,
    ParsedArgs, Platform, RunMode, TunnelPreference, DEFAULT_PORT,
};
use liver::edge::EdgeIpPreference;
use liver::startup::{
    plan_launch, plan_monitors, prompt_enable_tunnel, resolve_tunnel_enabled,
    should_prompt_monitor, LaunchPlan, MonitorPlan,
};

fn parse(platform: Platform, args: &[&str]) -> ParsedArgs {
    let owned: Vec<String> = args.iter().map(|a| a.to_string()).collect();
    parse_args(platform, &owned)
}

fn defaults() -> AppConfig {
    AppConfig {
        mode: RunMode::All,
        port: 3000,
        monitor_index: None,
        overlay_attach_mode: OverlayAttachMode::Monitor,
        list_monitors: false,
        tunnel_preference: TunnelPreference::Ask,
        edge_ip_preference: EdgeIpPreference::Auto,
    }
}

#[test]
fn without_arguments_server_and_overlay_start() {
    let r = parse(Platform::Other, &[]);
    assert_eq!(r.config, defaults());
    assert!(r.problems.is_empty());
    assert_eq!(DEFAULT_PORT, 3000);
}

#[test]
fn mac_os_follows_the_frontmost_window_by_default() {
    let r = parse(Platform::MacOs, &[]);
    assert_eq!(r.config.overlay_attach_mode, OverlayAttachMode::FrontmostWindow);
    assert_eq!(default_overlay_attach_mode(Platform::Windows), OverlayAttachMode::Monitor);
    assert_eq!(default_overlay_attach_mode(Platform::Other), OverlayAttachMode::Monitor);
}

#[test]
fn a_server_with_a_tunnel_over_ipv4() {
    let r = parse(Platform::Windows, &["--server", "--tunnel", "--edge-ip-version", "4"]);
    assert_eq!(
        r.config,
        AppConfig {
            mode: RunMode::Server,
            tunnel_preference: TunnelPreference::Always,
            edge_ip_preference: EdgeIpPreference::V4,
            ..defaults()
        }
    );
    assert!(r.problems.is_empty());
}

#[test]
fn everything_without_a_tunnel() {
    let r = parse(Platform::Other, &["--all", "--no-tunnel"]);
    assert_eq!(
        r.config,
        AppConfig { tunnel_preference: TunnelPreference::Never, ..defaults() }
    );
}

#[test]
fn the_ways_to_attach_the_overlay() {
    let attach = |arg: &str| parse(Platform::MacOs, &[arg]).config.overlay_attach_mode;
    assert_eq!(attach("--follow-monitor"), OverlayAttachMode::Monitor);
    assert_eq!(attach("--follow-window"), OverlayAttachMode::FrontmostWindow);
    assert_eq!(attach("--follow-fullscreen"), OverlayAttachMode::FullscreenWindow);
    assert_eq!(parse(Platform::Other, &["--overlay"]).config.mode, RunMode::Overlay);
    assert!(parse(Platform::Other, &["--list-monitors"]).config.list_monitors);
}

#[test]
fn values_are_read_and_later_ones_win() {
    let r = parse(
        Platform::Other,
        &["--port", "8080", "--monitor", "-1", "--port", "+9090", "--edge-ip-version", "6"],
    );
    assert_eq!(r.config.port, 9090);
    assert_eq!(r.config.monitor_index, Some(-1));
    assert_eq!(r.config.edge_ip_preference, EdgeIpPreference::V6);
    assert!(r.problems.is_empty());
    let r = parse(Platform::Other, &["--edge-ip-version", "6", "--edge-ip-version", "auto"]);
    assert_eq!(r.config.edge_ip_preference, EdgeIpPreference::Auto);
}

#[test]
fn values_that_do_not_fit_are_reported() {
    let r = parse(
        Platform::Other,
        &["--port", "70000", "--monitor", "x", "--edge-ip-version", "5", "--server"],
    );
    assert_eq!(r.config, AppConfig { mode: RunMode::Server, ..defaults() });
    assert_eq!(
        r.problems,
        vec![
            "invalid --port value: 70000".to_string(),
            "invalid --monitor value: x".to_string(),
            "invalid --edge-ip-version value: 5 (use 4/6/auto)".to_string(),
        ]
    );
}

#[test]
fn missing_values_are_reported() {
    for arg in ["--port", "--monitor", "--edge-ip-version"] {
        let r = parse(Platform::Other, &["--overlay", arg]);
        assert_eq!(r.config, AppConfig { mode: RunMode::Overlay, ..defaults() });
        assert_eq!(r.problems, vec![format!("missing value for {}", arg)]);
    }
}

#[test]
fn a_value_is_taken_even_where_it_looks_like_an_argument() {
    let r = parse(Platform::Other, &["--port", "--server"]);
    assert_eq!(r.config, defaults());
    assert_eq!(r.problems, vec!["invalid --port value: --server".to_string()]);
}

#[test]
fn unknown_arguments_are_ignored() {
    let r = parse(Platform::Other, &["--verbose", "--tunnel", "x", "--Server"]);
    assert_eq!(
        r.config,
        AppConfig { tunnel_preference: TunnelPreference::Always, ..defaults() }
    );
    assert!(r.problems.is_empty());
    let with = parse(Platform::Other, &["--server", "-v", "--port", "80", "--monitor", "x"]);
    let without = parse(Platform::Other, &["--server", "--port", "80", "--monitor", "x"]);
    assert_eq!(with.config, without.config);
    assert_eq!(with.problems, without.problems);
}

#[test]
fn the_environment_may_name_the_port() {
    let config = parse(Platform::Other, &["--port", "8080"]).config;
    assert_eq!(with_env_port(config, Some("4000")).port, 4000);
    assert_eq!(with_env_port(config, Some("65536")).port, 8080);
    assert_eq!(with_env_port(config, Some(" 4000")).port, 8080);
    assert_eq!(with_env_port(config, Some("")).port, 8080);
    assert_eq!(with_env_port(config, None), config);
}

#[test]
fn arguments_decide_on_the_tunnel() {
    for mode in [RunMode::Server, RunMode::All] {
        assert_eq!(resolve_tunnel_enabled(mode, TunnelPreference::Always), Some(true));
        assert_eq!(resolve_tunnel_enabled(mode, TunnelPreference::Never), Some(false));
        assert_eq!(resolve_tunnel_enabled(mode, TunnelPreference::Ask), None);
    }
    for p in [TunnelPreference::Always, TunnelPreference::Never, TunnelPreference::Ask] {
        assert_eq!(resolve_tunnel_enabled(RunMode::Overlay, p), Some(false));
    }
}

#[test]
fn answers_to_the_question_for_a_tunnel() {
    for yes in ["", "\n", "  \r\n", "y\n", "Y", "yes", "YeS\n", "\u{3000}YES "] {
        assert_eq!(prompt_enable_tunnel(Some(yes)), Some(true), "{:?}", yes);
    }
    for no in ["n\n", "N", "no", "NO\r\n"] {
        assert_eq!(prompt_enable_tunnel(Some(no)), Some(false), "{:?}", no);
    }
    for again in ["x", "yess", "nope", "ye s", "\u{ff59}", "是", "ý"] {
        assert_eq!(prompt_enable_tunnel(Some(again)), None, "{:?}", again);
    }
    assert_eq!(prompt_enable_tunnel(None), Some(true));
}

#[test]
fn a_monitor_is_asked_for_unless_the_frontmost_window_is_followed() {
    let front = OverlayAttachMode::FrontmostWindow;
    let full = OverlayAttachMode::FullscreenWindow;
    assert!(!should_prompt_monitor(front, Platform::MacOs));
    assert!(should_prompt_monitor(full, Platform::MacOs));
    assert!(should_prompt_monitor(OverlayAttachMode::Monitor, Platform::MacOs));
    assert!(should_prompt_monitor(front, Platform::Windows));
    assert!(should_prompt_monitor(front, Platform::Other));
}

#[test]
fn what_is_done_with_the_monitors() {
    let m = OverlayAttachMode::Monitor;
    let plan = |mode, any, chosen, list| plan_monitors(mode, any, chosen, list, m, Platform::Other);
    let quiet = MonitorPlan { report_missing: false, list: false, ask: false };
    assert_eq!(plan(RunMode::Server, true, false, false), quiet);
    assert_eq!(plan(RunMode::Server, false, false, true), MonitorPlan { list: true, ..quiet });
    assert_eq!(
        plan(RunMode::All, true, false, false),
        MonitorPlan { report_missing: false, list: true, ask: true }
    );
    assert_eq!(plan(RunMode::Overlay, true, true, false), MonitorPlan { list: true, ..quiet });
    assert_eq!(
        plan(RunMode::Overlay, false, false, true),
        MonitorPlan { report_missing: true, ..quiet }
    );
    let front = OverlayAttachMode::FrontmostWindow;
    assert_eq!(
        plan_monitors(RunMode::All, true, false, false, front, Platform::MacOs),
        MonitorPlan { list: true, ..quiet }
    );
}

#[test]
fn what_is_started() {
    let nothing = LaunchPlan {
        server: false,
        tunnel: false,
        overlay: false,
        tunnel_ignored: false,
        overlay_disabled: false,
    };
    assert_eq!(
        plan_launch(RunMode::Server, true, Some(-1)),
        LaunchPlan { server: true, tunnel: true, ..nothing }
    );
    assert_eq!(
        plan_launch(RunMode::All, false, None),
        LaunchPlan { server: true, overlay: true, ..nothing }
    );
    assert_eq!(
        plan_launch(RunMode::All, true, Some(-1)),
        LaunchPlan { server: true, tunnel: true, overlay_disabled: true, ..nothing }
    );
    assert_eq!(
        plan_launch(RunMode::Overlay, true, Some(0)),
        LaunchPlan { overlay: true, tunnel_ignored: true, ..nothing }
    );
    assert_eq!(
        plan_launch(RunMode::Overlay, false, Some(-1)),
        LaunchPlan { overlay_disabled: true, ..nothing }
    );
    // Any other negative number leaves the overlay on.
    assert_eq!(
        plan_launch(RunMode::Overlay, false, Some(-2)),
        LaunchPlan { overlay: true, ..nothing }
    );
}
