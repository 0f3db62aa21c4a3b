use liver::edge::{
    choose_edge_ip_version, edge_ip_version_or_default, AddressProbe, EdgeIpPreference, EdgeProbe,
    EdgeStep, HostProbe, EDGE_PORT,
};
use liver::origin_cert::{candidate_origin_cert_paths, find_existing_origin_cert};
use liver::tunnel::{
    after_attempt, classify_cloudflare_quick_tunnel_error, cloudflared_args,
    cloudflared_run_result, describe_exit_status, format_cloudflare_quick_tunnel_panic,
    pump_cloudflared_output, quick_tunnel_retry_delay_secs, record_cloudflared_attempt_line,
    CloudflaredAttemptState, ProcessExit, TunnelLaunchError, TunnelLaunchErrorKind, TunnelStep,
    QUICK_TUNNEL_MAX_ATTEMPTS,
};
use liver::tunnel_log::{
    begin_attempt, log_cloudflared_line, split_cloudflared_line, LogEntry, LogLevel, LogSource, TunnelLog,
};
use liver::tunnel_url::extract_trycloudflare_url;

const UNMARSHAL: &str =
    "2025-01-01T00:00:00Z ERR Error unmarshaling QuickTunnel response: error code: 1101";

fn fresh_log() -> TunnelLog {
    TunnelLog { connected: false, dns_hint_printed: false }
}

fn shown(entries: &[LogEntry]) -> Vec<(LogSource, LogLevel, &str)> {
    entries.iter().map(|e| (e.source, e.level, e.text.as_str())).collect()
}

fn state_of(lines: &[&str]) -> CloudflaredAttemptState {
    let mut state = CloudflaredAttemptState::default();
    for line in lines {
        record_cloudflared_attempt_line(&mut state, line);
    }
    state
}

#[test]
fn lines_are_split_at_their_level() {
    assert_eq!(split_cloudflared_line("2025 INF  hello "), ("INF", "hello"));
    assert_eq!(split_cloudflared_line("2025 ERR boom"), ("ERR", "boom"));
    assert_eq!(split_cloudflared_line("2025 WRN careful"), ("WRN", "careful"));
    assert_eq!(split_cloudflared_line("INF hello"), ("INF", "hello"));
    assert_eq!(split_cloudflared_line("ERR boom"), ("ERR", "boom"));
    assert_eq!(split_cloudflared_line("WRN careful"), ("WRN", "careful"));
    assert_eq!(split_cloudflared_line("  plain  "), ("INF", "plain"));
    assert_eq!(split_cloudflared_line(""), ("INF", ""));
    assert_eq!(split_cloudflared_line("ERROR"), ("INF", "ERROR"));
}

#[test]
fn an_inner_info_marker_comes_before_the_others() {
    assert_eq!(split_cloudflared_line("a ERR b INF c"), ("INF", "c"));
    assert_eq!(split_cloudflared_line("a WRN b ERR c"), ("ERR", "c"));
    assert_eq!(split_cloudflared_line("ERR a WRN b"), ("WRN", "b"));
    assert_eq!(split_cloudflared_line("时间 ERR 失败 "), ("ERR", "失败"));
}

#[test]
fn lines_are_logged_at_their_level() {
    let c = LogSource::Cloudflared;
    let mut log = fresh_log();
    assert_eq!(
        shown(&log_cloudflared_line(&mut log, "t ERR boom")),
        vec![(c, LogLevel::Error, "boom")]
    );
    assert_eq!(
        shown(&log_cloudflared_line(&mut log, "t WRN careful")),
        vec![(c, LogLevel::Warn, "careful")]
    );
    assert_eq!(
        shown(&log_cloudflared_line(&mut log, "t INF fine")),
        vec![(c, LogLevel::Info, "fine")]
    );
    assert_eq!(
        shown(&log_cloudflared_line(
            &mut log,
            "t ERR Cannot determine default origin certificate path. No file cert.pem"
        )),
        vec![(c, LogLevel::Info, "quick tunnel without login (no cert.pem)")]
    );
    assert_eq!(log, fresh_log());
}

#[test]
fn hints_on_dns_are_given_once() {
    let dns = "t ERR Failed to initialize DNS local resolver: timeout";
    let mut log = fresh_log();
    let first = log_cloudflared_line(&mut log, dns);
    assert_eq!(first.len(), 6);
    assert_eq!(
        shown(&first)[0],
        (
            LogSource::Cloudflared,
            LogLevel::Warn,
            "Failed to initialize DNS local resolver: timeout (transient DNS issue; tunnel may still be connected)"
        )
    );
    assert_eq!(shown(&first)[1], (LogSource::App, LogLevel::Warn, "DNS 修复建议:"));
    assert_eq!(
        shown(&first)[5],
        (
            LogSource::App,
            LogLevel::Warn,
            "4) 若 DNS 不可达，改为可达 DNS（如 8.8.8.8）并 ipconfig /flushdns"
        )
    );
    assert_eq!(log, TunnelLog { connected: false, dns_hint_printed: true });
    assert_eq!(log_cloudflared_line(&mut log, dns).len(), 1);
}

#[test]
fn after_a_connection_dns_failures_are_ignored() {
    let mut log = fresh_log();
    log_cloudflared_line(&mut log, "t INF Registered tunnel connection connIndex=0");
    assert_eq!(log, TunnelLog { connected: true, dns_hint_printed: false });
    let r = log_cloudflared_line(&mut log, "t ERR Failed to initialize DNS local resolver");
    assert_eq!(
        shown(&r),
        vec![(
            LogSource::Cloudflared,
            LogLevel::Info,
            "Failed to initialize DNS local resolver (ignored after tunnel connected)"
        )]
    );
    assert_eq!(log, TunnelLog { connected: true, dns_hint_printed: false });
}

#[test]
fn hints_are_given_once_over_all_attempts() {
    let dns = "t ERR Failed to initialize DNS local resolver";
    let mut log = fresh_log();
    begin_attempt(&mut log);
    assert_eq!(log, fresh_log());
    assert_eq!(log_cloudflared_line(&mut log, dns).len(), 6);
    log_cloudflared_line(&mut log, "t INF Registered tunnel connection");
    assert_eq!(log, TunnelLog { connected: true, dns_hint_printed: true });
    begin_attempt(&mut log);
    assert_eq!(log, TunnelLog { connected: false, dns_hint_printed: true });
    assert_eq!(
        shown(&log_cloudflared_line(&mut log, dns)),
        vec![(
            LogSource::Cloudflared,
            LogLevel::Warn,
            "Failed to initialize DNS local resolver (transient DNS issue; tunnel may still be connected)"
        )]
    );
}

#[test]
fn tunnel_addresses_are_found() {
    let url = |s: &str| extract_trycloudflare_url(s);
    let found = Some("https://xxxx.trycloudflare.com".to_string());
    assert_eq!(url("2025 INF |  https://xxxx.trycloudflare.com   |"), found);
    assert_eq!(url("https://xxxx.trycloudflare.com"), found);
    assert_eq!(url("见 https://xxxx.trycloudflare.com//\u{3000}尾"), found);
    assert_eq!(
        url("https://xxxx.trycloudflare.com/a/ x"),
        Some("https://xxxx.trycloudflare.com/a".to_string())
    );
}

#[test]
fn other_addresses_are_not_tunnel_addresses() {
    assert_eq!(extract_trycloudflare_url("INF nothing here"), None);
    assert_eq!(extract_trycloudflare_url("http://x.trycloudflare.com"), None);
    assert_eq!(extract_trycloudflare_url("https://example.com trycloudflare.com"), None);
    // Only the first address of a line counts.
    assert_eq!(
        extract_trycloudflare_url("https://example.com https://x.trycloudflare.com"),
        None
    );
}

#[test]
fn errors_of_the_service_are_told_apart() {
    let said = "TryCloudflare returned an invalid Quick Tunnel response: m".to_string();
    assert_eq!(classify_cloudflare_quick_tunnel_error(UNMARSHAL, "m"), Some(said.clone()));
    assert_eq!(
        classify_cloudflare_quick_tunnel_error("x failed to unmarshal quick Tunnel: y", "m"),
        Some(said)
    );
    assert_eq!(classify_cloudflare_quick_tunnel_error("ERR other", "m"), None);
}

#[test]
fn what_the_lines_of_a_run_show() {
    let s = state_of(&["t ERR first", UNMARSHAL, "ERR last", "x failed to unmarshal quick Tunnel"]);
    assert!(!s.connected);
    assert_eq!(
        s.cloudflare_service_error.as_deref(),
        Some("TryCloudflare returned an invalid Quick Tunnel response: Error unmarshaling QuickTunnel response: error code: 1101")
    );
    assert_eq!(s.last_error.as_deref(), Some("last"));
    assert!(state_of(&["t INF Registered tunnel connection", "t ERR x"]).connected);
    // The marker may also stand outside the message.
    assert!(!state_of(&["Registered tunnel connection ERR x"]).connected);
    let none = state_of(&["t INF fine", "ERROR"]);
    assert_eq!(none.last_error, None);
    assert_eq!(none.cloudflare_service_error, None);
}

#[test]
fn output_is_logged_and_noted_line_by_line() {
    let lines: Vec<String> = [
        "t INF |  https://ab.trycloudflare.com  |",
        "t ERR Failed to initialize DNS local resolver",
        "t INF Registered tunnel connection",
        "t ERR Failed to initialize DNS local resolver",
    ]
    .iter()
    .map(|l| l.to_string())
    .collect();
    let mut log = fresh_log();
    let mut state = CloudflaredAttemptState::default();
    let entries = pump_cloudflared_output(&lines, &mut log, &mut state);
    let shown = shown(&entries);
    assert_eq!(shown.len(), 10);
    assert_eq!(shown[0].2, "|  https://ab.trycloudflare.com  |");
    assert_eq!(
        shown[1],
        (
            LogSource::Cloudflared,
            LogLevel::Info,
            "client URL: https://ab.trycloudflare.com/client"
        )
    );
    assert_eq!(shown.iter().filter(|e| e.0 == LogSource::App).count(), 5);
    assert_eq!(
        shown[9].2,
        "Failed to initialize DNS local resolver (ignored after tunnel connected)"
    );
    assert_eq!(log, TunnelLog { connected: true, dns_hint_printed: true });
    assert!(state.connected);
    assert_eq!(state.last_error.as_deref(), Some("Failed to initialize DNS local resolver"));
}

#[test]
fn output_may_come_in_pieces() {
    let lines: Vec<String> = [
        "t ERR Failed to initialize DNS local resolver",
        "t INF https://ab.trycloudflare.com",
        UNMARSHAL,
        "t ERR Failed to initialize DNS local resolver",
    ]
    .iter()
    .map(|l| l.to_string())
    .collect();
    let mut log = fresh_log();
    let mut state = CloudflaredAttemptState::default();
    let whole = pump_cloudflared_output(&lines, &mut log, &mut state);
    let mut log_of_pieces = fresh_log();
    let mut state_of_pieces = CloudflaredAttemptState::default();
    let mut pieces = Vec::new();
    for line in lines {
        pieces.extend(pump_cloudflared_output(
            &vec![line],
            &mut log_of_pieces,
            &mut state_of_pieces,
        ));
    }
    assert_eq!(shown(&pieces), shown(&whole));
    assert_eq!(log_of_pieces, log);
    assert_eq!(state_of_pieces.last_error, state.last_error);
    assert_eq!(state_of_pieces.cloudflare_service_error, state.cloudflare_service_error);
}

#[test]
fn exit_statuses_in_words() {
    assert_eq!(describe_exit_status(Some(0)), "exit code 0");
    assert_eq!(describe_exit_status(Some(-1)), "exit code -1");
    assert_eq!(describe_exit_status(Some(i32::MIN)), "exit code -2147483648");
    assert_eq!(describe_exit_status(None), "signal termination");
}

#[test]
fn how_a_run_ends() {
    let bad = ProcessExit { success: false, code: Some(1) };
    let good = ProcessExit { success: true, code: Some(0) };
    let killed = ProcessExit { success: false, code: None };
    let up = "t INF Registered tunnel connection";

    let r = cloudflared_run_result(state_of(&[up, UNMARSHAL]), good);
    assert_eq!(r.ok(), Some(None));
    let r = cloudflared_run_result(state_of(&[UNMARSHAL, up]), bad);
    assert_eq!(
        r.ok(),
        Some(Some("cloudflared exited after tunnel had connected: exit code 1".to_string()))
    );

    let e = cloudflared_run_result(state_of(&[UNMARSHAL]), bad).unwrap_err();
    assert_eq!(e.kind, TunnelLaunchErrorKind::CloudflareService);
    assert!(e.is_cloudflare_service());

    let e = cloudflared_run_result(state_of(&["ERR no route"]), bad).unwrap_err();
    assert_eq!(e.kind, TunnelLaunchErrorKind::LocalProcess);
    assert_eq!(e.message(), "cloudflared exited before tunnel connected: no route");

    let e = cloudflared_run_result(state_of(&[]), killed).unwrap_err();
    assert!(!e.is_cloudflare_service());
    assert_eq!(
        e.message(),
        "cloudflared exited before tunnel connected with signal termination"
    );
    let e = cloudflared_run_result(state_of(&[]), good).unwrap_err();
    assert_eq!(e.message(), "cloudflared exited before tunnel connected with exit code 0");
}

#[test]
fn failures_to_run_the_process() {
    let e = TunnelLaunchError::not_started("no such file");
    assert_eq!(e.message(), "failed to start cloudflared: no such file");
    assert!(!e.is_cloudflare_service());
    let e = TunnelLaunchError::not_awaited("interrupted");
    assert_eq!(e.message(), "failed while waiting for cloudflared: interrupted");
    assert!(!e.is_cloudflare_service());
}

#[test]
fn the_arguments_of_the_process() {
    assert_eq!(
        cloudflared_args(3000, "4", None).join(" "),
        "tunnel --url http://127.0.0.1:3000 --protocol http2 --edge-ip-version 4"
    );
    let args = cloudflared_args(8080, "6", Some("/home/a b/cert.pem".to_string()));
    assert_eq!(args.len(), 9);
    assert_eq!(args[2], "http://127.0.0.1:8080");
    assert_eq!(args[6], "6");
    assert_eq!(args[7], "--origincert");
    assert_eq!(args[8], "/home/a b/cert.pem");
}

#[test]
fn pauses_between_attempts() {
    assert_eq!(quick_tunnel_retry_delay_secs(0), 2);
    assert_eq!(quick_tunnel_retry_delay_secs(1), 2);
    assert_eq!(quick_tunnel_retry_delay_secs(2), 5);
    assert_eq!(quick_tunnel_retry_delay_secs(3), 5);
    assert_eq!(quick_tunnel_retry_delay_secs(usize::MAX), 5);
}

#[test]
fn three_attempts_at_most() {
    assert_eq!(QUICK_TUNNEL_MAX_ATTEMPTS, 3);
    let service = || Some(TunnelLaunchError::cloudflare_service("d".to_string()));
    let mut waited = Vec::new();
    let mut attempt = 1usize;
    let end = loop {
        match after_attempt(attempt, service()) {
            TunnelStep::Retry { delay_secs } => waited.push(delay_secs),
            step => break step,
        }
        attempt += 1;
    };
    assert_eq!(attempt, 3);
    assert_eq!(waited, vec![2, 5]);
    let said = "Cloudflare Quick Tunnel 连续 3 次启动失败：d。这是 Cloudflare TryCloudflare 服务端问题，不是 liver 代码问题。请稍后重试，或改用登录后的 named tunnel。";
    match end {
        TunnelStep::GiveUp { message } => assert_eq!(message, said),
        other => panic!("{:?}", other),
    }
    let err = TunnelLaunchError::cloudflare_service("d".to_string());
    assert_eq!(format_cloudflare_quick_tunnel_panic(&err), said);
}

#[test]
fn local_failures_are_not_repeated() {
    match after_attempt(1, Some(TunnelLaunchError::local("gone".to_string()))) {
        TunnelStep::Stop { message } => assert_eq!(message, "gone"),
        other => panic!("{:?}", other),
    }
    assert!(matches!(after_attempt(1, None), TunnelStep::Done));
    assert!(matches!(after_attempt(3, None), TunnelStep::Done));
}

fn resolved(addresses: &[(bool, bool)]) -> HostProbe {
    let addresses = addresses
        .iter()
        .map(|&(ipv4, reachable)| AddressProbe { ipv4, reachable })
        .collect();
    HostProbe::Resolved { addresses }
}

fn first_probe() -> EdgeProbe {
    match choose_edge_ip_version(EdgeIpPreference::Auto) {
        EdgeStep::Probe { probe, host } => {
            assert_eq!(host, "region1.v2.argotunnel.com");
            probe
        }
        other => panic!("{:?}", other),
    }
}

fn choice(first: HostProbe, second: HostProbe) -> Result<&'static str, String> {
    match first_probe().observe(first) {
        EdgeStep::Decided { version } => version,
        EdgeStep::Probe { probe, host } => {
            assert_eq!(host, "region2.v2.argotunnel.com");
            match probe.observe(second) {
                EdgeStep::Decided { version } => version,
                other => panic!("{:?}", other),
            }
        }
    }
}

#[test]
fn a_wanted_ip_version_is_taken_without_probing() {
    for (pref, name) in [(EdgeIpPreference::V4, "4"), (EdgeIpPreference::V6, "6")] {
        match choose_edge_ip_version(pref) {
            EdgeStep::Decided { version } => assert_eq!(version, Ok(name)),
            other => panic!("{:?}", other),
        }
    }
    assert_eq!(EDGE_PORT, 7844);
}

#[test]
fn reachable_addresses_choose_the_ip_version() {
    assert_eq!(choice(resolved(&[(true, true)]), resolved(&[])), Ok("4"));
    assert_eq!(choice(resolved(&[(false, true)]), resolved(&[(true, true)])), Ok("4"));
    assert_eq!(
        choice(resolved(&[(false, true), (true, false)]), resolved(&[(true, false)])),
        Ok("6")
    );
    assert_eq!(
        choice(resolved(&[(true, false)]), resolved(&[])),
        Err("cannot connect to argotunnel on TCP/7844".to_string())
    );
    assert_eq!(
        choice(resolved(&[]), resolved(&[])),
        Err("cannot resolve argotunnel DNS records".to_string())
    );
}

#[test]
fn a_name_that_does_not_resolve_ends_the_choice() {
    let unresolved = || HostProbe::Unresolved { reason: "no DNS".to_string() };
    assert_eq!(
        choice(unresolved(), resolved(&[(true, true)])),
        Err("DNS resolve failed for region1.v2.argotunnel.com: no DNS".to_string())
    );
    assert_eq!(
        choice(resolved(&[(true, true)]), unresolved()),
        Err("DNS resolve failed for region2.v2.argotunnel.com: no DNS".to_string())
    );
    assert_eq!(edge_ip_version_or_default(choice(unresolved(), unresolved())), "4");
    assert_eq!(edge_ip_version_or_default(Ok("6")), "6");
}

#[test]
fn the_first_certificate_that_exists_is_used() {
    assert_eq!(
        candidate_origin_cert_paths(true),
        vec![".cloudflared", ".cloudflare-warp", "cloudflare-warp"]
    );
    assert!(candidate_origin_cert_paths(false).is_empty());
    assert_eq!(find_existing_origin_cert(&vec![false, true, true]), Some(1));
    assert_eq!(find_existing_origin_cert(&vec![false, false, false]), None);
    assert_eq!(find_existing_origin_cert(&vec![]), None);
}
