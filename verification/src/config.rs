//! The command line, and what it makes the program do.

use vstd::prelude::*;

use crate::decimal;
use crate::edge::EdgeIpPreference;
use crate::text;

verus! {

/// The port that is served where no other one is asked for.
pub const DEFAULT_PORT: u16 = 3000;

/// The kinds of system whose defaults differ.
#[derive(Clone, Copy, Debug, PartialEq, Eq, Structural)]
pub enum Platform {
    Windows,
    MacOs,
    Other,
}

#[derive(Clone, Copy, Debug, PartialEq, Eq, Structural)]
pub enum RunMode {
    Server,
    Overlay,
    All,
}

/// What the overlay covers.
#[derive(Clone, Copy, Debug, PartialEq, Eq, Structural)]
pub enum OverlayAttachMode {
    Monitor,
    FullscreenWindow,
    FrontmostWindow,
}

#[derive(Clone, Copy, Debug, PartialEq, Eq, Structural)]
pub enum TunnelPreference {
    Ask,
    Always,
    Never,
}

#[derive(Clone, Copy, Debug, PartialEq, Eq, Structural)]
pub struct AppConfig {
    pub mode: RunMode,
    pub port: u16,
    pub monitor_index: Option<i32>,
    pub overlay_attach_mode: OverlayAttachMode,
    pub list_monitors: bool,
    pub tunnel_preference: TunnelPreference,
    pub edge_ip_preference: EdgeIpPreference,
}

/// A configuration, and what was wrong with the arguments that it comes from.
#[derive(Debug)]
pub struct ParsedArgs {
    pub config: AppConfig,
    pub problems: Vec<String>,
}

/// A configuration and its problems, with their texts as characters.
#[verifier::ext_equal]
pub struct Parsed {
    pub config: AppConfig,
    pub problems: Seq<Seq<char>>,
}

impl View for ParsedArgs {
    type V = Parsed;

    open spec fn view(&self) -> Parsed {
        Parsed { config: self.config, problems: text::view_list(self.problems@) }
    }
}

/// What the overlay covers by default: the frontmost window on macOS, a monitor
/// elsewhere.
pub open spec fn default_attach_mode(platform: Platform) -> OverlayAttachMode {
    if platform is MacOs {
        OverlayAttachMode::FrontmostWindow
    } else {
        OverlayAttachMode::Monitor
    }
}

/// The configuration without any arguments.
pub open spec fn default_config(platform: Platform) -> AppConfig {
    AppConfig {
        mode: RunMode::All,
        port: DEFAULT_PORT,
        monitor_index: None,
        overlay_attach_mode: default_attach_mode(platform),
        list_monitors: false,
        tunnel_preference: TunnelPreference::Ask,
        edge_ip_preference: EdgeIpPreference::Auto,
    }
}

/// The arguments that are followed by a value.
pub open spec fn takes_value(arg: Seq<char>) -> bool {
    arg == "--edge-ip-version"@ || arg == "--monitor"@ || arg == "--port"@
}

/// What an argument without a value changes; unknown arguments change nothing.
pub open spec fn with_flag(config: AppConfig, arg: Seq<char>) -> AppConfig {
    if arg == "--server"@ {
        AppConfig { mode: RunMode::Server, ..config }
    } else if arg == "--overlay"@ {
        AppConfig { mode: RunMode::Overlay, ..config }
    } else if arg == "--all"@ {
        AppConfig { mode: RunMode::All, ..config }
    } else if arg == "--tunnel"@ {
        AppConfig { tunnel_preference: TunnelPreference::Always, ..config }
    } else if arg == "--no-tunnel"@ {
        AppConfig { tunnel_preference: TunnelPreference::Never, ..config }
    } else if arg == "--follow-fullscreen"@ {
        AppConfig { overlay_attach_mode: OverlayAttachMode::FullscreenWindow, ..config }
    } else if arg == "--follow-window"@ {
        AppConfig { overlay_attach_mode: OverlayAttachMode::FrontmostWindow, ..config }
    } else if arg == "--follow-monitor"@ {
        AppConfig { overlay_attach_mode: OverlayAttachMode::Monitor, ..config }
    } else if arg == "--list-monitors"@ {
        AppConfig { list_monitors: true, ..config }
    } else {
        config
    }
}

/// The number that `s` denotes, where it is in the range of `u16`.
pub open spec fn port_in(s: Seq<char>) -> Option<u16> {
    match decimal::unsigned_decimal(s) {
        Some(n) => if n <= u16::MAX {
            Some(n as u16)
        } else {
            None
        },
        None => None,
    }
}

/// The number that `s` denotes, where it is in the range of `i32`.
pub open spec fn index_in(s: Seq<char>) -> Option<i32> {
    match decimal::signed_decimal(s) {
        Some(n) => if i32::MIN <= n <= i32::MAX {
            Some(n as i32)
        } else {
            None
        },
        None => None,
    }
}

/// What the argument `arg` with the value `v` changes. A value that does not
/// fit changes nothing and is a problem.
pub open spec fn with_value(p: Parsed, arg: Seq<char>, v: Seq<char>) -> Parsed {
    if arg == "--edge-ip-version"@ {
        if v == "4"@ {
            Parsed {
                config: AppConfig { edge_ip_preference: EdgeIpPreference::V4, ..p.config },
                ..p
            }
        } else if v == "6"@ {
            Parsed {
                config: AppConfig { edge_ip_preference: EdgeIpPreference::V6, ..p.config },
                ..p
            }
        } else if v == "auto"@ {
            Parsed {
                config: AppConfig { edge_ip_preference: EdgeIpPreference::Auto, ..p.config },
                ..p
            }
        } else {
            Parsed {
                problems: p.problems.push(
                    "invalid --edge-ip-version value: "@ + v + " (use 4/6/auto)"@,
                ),
                ..p
            }
        }
    } else if arg == "--monitor"@ {
        match index_in(v) {
            Some(idx) => Parsed {
                config: AppConfig { monitor_index: Some(idx), ..p.config },
                ..p
            },
            None => Parsed { problems: p.problems.push("invalid --monitor value: "@ + v), ..p },
        }
    } else {
        match port_in(v) {
            Some(port) => Parsed { config: AppConfig { port, ..p.config }, ..p },
            None => Parsed { problems: p.problems.push("invalid --port value: "@ + v), ..p },
        }
    }
}

/// What the arguments from index `i` on make of `p`, each in its turn.
pub open spec fn parsed_from(args: Seq<Seq<char>>, i: int, p: Parsed) -> Parsed
    decreases args.len() - i,
{
    if i >= args.len() {
        p
    } else if takes_value(args[i]) {
        if i + 1 < args.len() {
            parsed_from(args, i + 2, with_value(p, args[i], args[i + 1]))
        } else {
            Parsed { problems: p.problems.push("missing value for "@ + args[i]), ..p }
        }
    } else {
        parsed_from(args, i + 1, Parsed { config: with_flag(p.config, args[i]), ..p })
    }
}

/// What the command line `args` makes of the defaults.
pub open spec fn parsed(platform: Platform, args: Seq<Seq<char>>) -> Parsed {
    parsed_from(args, 0, Parsed { config: default_config(platform), problems: Seq::empty() })
}

/// The arguments from index `i` on do not end with one that lacks its value.
pub open spec fn complete_from(args: Seq<Seq<char>>, i: int) -> bool
    decreases args.len() - i + 1,
{
    if i >= args.len() {
        i == args.len()
    } else if takes_value(args[i]) {
        complete_from(args, i + 2)
    } else {
        complete_from(args, i + 1)
    }
}

/// What the overlay covers where nothing was asked for.
pub fn default_overlay_attach_mode(platform: Platform) -> (r: OverlayAttachMode)
    ensures
        r == default_attach_mode(platform),
{
    match platform {
        Platform::MacOs => OverlayAttachMode::FrontmostWindow,
        _ => OverlayAttachMode::Monitor,
    }
}

fn apply_flag(config: AppConfig, arg: &str) -> (r: AppConfig)
    ensures
        r == with_flag(config, arg@),
{
    let mut r = config;
    if text::same_text(arg, "--server") {
        r.mode = RunMode::Server;
    } else if text::same_text(arg, "--overlay") {
        r.mode = RunMode::Overlay;
    } else if text::same_text(arg, "--all") {
        r.mode = RunMode::All;
    } else if text::same_text(arg, "--tunnel") {
        r.tunnel_preference = TunnelPreference::Always;
    } else if text::same_text(arg, "--no-tunnel") {
        r.tunnel_preference = TunnelPreference::Never;
    } else if text::same_text(arg, "--follow-fullscreen") {
        r.overlay_attach_mode = OverlayAttachMode::FullscreenWindow;
    } else if text::same_text(arg, "--follow-window") {
        r.overlay_attach_mode = OverlayAttachMode::FrontmostWindow;
    } else if text::same_text(arg, "--follow-monitor") {
        r.overlay_attach_mode = OverlayAttachMode::Monitor;
    } else if text::same_text(arg, "--list-monitors") {
        r.list_monitors = true;
    }
    r
}

/// Adds a problem: `said`, the text `v` that it is about, and `note` behind it.
fn add_problem(problems: &mut Vec<String>, said: &str, v: &str, note: &str)
    ensures
        text::view_list(final(problems)@) == text::view_list(old(problems)@).push(
            said@ + v@ + note@,
        ),
{
    let mut s = said.to_owned();
    s.append(v);
    s.append(note);
    problems.push(s);
    assert(text::view_list(problems@) =~= text::view_list(old(problems)@).push(
        said@ + v@ + note@,
    ));
}

fn apply_value(p: &mut ParsedArgs, arg: &str, v: &str)
    ensures
        final(p)@ == with_value(old(p)@, arg@, v@),
{
    proof {
        reveal_strlit("");
        assert("invalid --monitor value: "@ + v@ + ""@ =~= "invalid --monitor value: "@ + v@);
        assert("invalid --port value: "@ + v@ + ""@ =~= "invalid --port value: "@ + v@);
    }
    if text::same_text(arg, "--edge-ip-version") {
        if text::same_text(v, "4") {
            p.config.edge_ip_preference = EdgeIpPreference::V4;
        } else if text::same_text(v, "6") {
            p.config.edge_ip_preference = EdgeIpPreference::V6;
        } else if text::same_text(v, "auto") {
            p.config.edge_ip_preference = EdgeIpPreference::Auto;
        } else {
            let said = "invalid --edge-ip-version value: ";
            add_problem(&mut p.problems, said, v, " (use 4/6/auto)");
        }
    } else if text::same_text(arg, "--monitor") {
        match decimal::parse_i32(v) {
            Some(idx) => p.config.monitor_index = Some(idx),
            None => add_problem(&mut p.problems, "invalid --monitor value: ", v, ""),
        }
    } else {
        match decimal::parse_u16(v) {
            Some(port) => p.config.port = port,
            None => add_problem(&mut p.problems, "invalid --port value: ", v, ""),
        }
    }
}

/// Reads the command line, the name of the program left out. What comes later
/// wins, and what cannot be read is reported and otherwise ignored.
pub fn parse_args(platform: Platform, args: &Vec<String>) -> (r: ParsedArgs)
    ensures
        r@ == parsed(platform, text::view_list(args@)),
{
    let ghost all = text::view_list(args@);
    let mut p = ParsedArgs {
        config: AppConfig {
            mode: RunMode::All,
            port: DEFAULT_PORT,
            monitor_index: None,
            overlay_attach_mode: default_overlay_attach_mode(platform),
            list_monitors: false,
            tunnel_preference: TunnelPreference::Ask,
            edge_ip_preference: EdgeIpPreference::Auto,
        },
        problems: Vec::new(),
    };
    assert(p@ =~= (Parsed { config: default_config(platform), problems: Seq::empty() }));
    let mut i: usize = 0;
    while i < args.len()
        invariant
            i <= args.len(),
            all == text::view_list(args@),
            parsed(platform, all) == parsed_from(all, i as int, p@),
        decreases args.len() - i,
    {
        let arg = args[i].as_str();
        assert(arg@ == all[i as int]);
        if text::same_text(arg, "--edge-ip-version") || text::same_text(arg, "--monitor")
            || text::same_text(arg, "--port") {
            if args.len() - i > 1 {
                let v = args[i + 1].as_str();
                assert(v@ == all[i + 1]);
                apply_value(&mut p, arg, v);
                i = i + 2;
            } else {
                add_problem(&mut p.problems, "missing value for ", arg, "");
                proof {
                    reveal_strlit("");
                    assert("missing value for "@ + arg@ + ""@ =~= "missing value for "@ + arg@);
                }
                return p;
            }
        } else {
            let ghost before = p@;
            p.config = apply_flag(p.config, arg);
            assert(p@ == (Parsed { config: with_flag(before.config, arg@), ..before }));
            i = i + 1;
        }
    }
    p
}

/// The configuration with the port from the environment, where that names one.
pub fn with_env_port(config: AppConfig, port: Option<&str>) -> (r: AppConfig)
    ensures
        r == (match port {
            Some(s) => match port_in(s@) {
                Some(p) => AppConfig { port: p, ..config },
                None => config,
            },
            None => config,
        }),
{
    let mut r = config;
    if let Some(s) = port {
        if let Some(p) = decimal::parse_u16(s) {
            r.port = p;
        }
    }
    r
}

proof fn lemma_append_from(args: Seq<Seq<char>>, more: Seq<Seq<char>>, i: int, p: Parsed)
    requires
        0 <= i <= args.len(),
        complete_from(args, i),
    ensures
        parsed_from(args + more, i, p) == parsed_from(more, 0, parsed_from(args, i, p)),
    decreases args.len() - i,
{
    let both = args + more;
    if i == args.len() {
        lemma_shift(args, more, 0, p);
    } else if takes_value(args[i]) {
        assert(complete_from(args, i + 2));
        assert(i + 1 < args.len());
        assert(both[i] == args[i] && both[i + 1] == args[i + 1]);
        lemma_append_from(args, more, i + 2, with_value(p, args[i], args[i + 1]));
    } else {
        assert(both[i] == args[i]);
        lemma_append_from(
            args,
            more,
            i + 1,
            Parsed { config: with_flag(p.config, args[i]), ..p },
        );
    }
}

proof fn lemma_shift(args: Seq<Seq<char>>, more: Seq<Seq<char>>, k: int, p: Parsed)
    requires
        0 <= k,
    ensures
        parsed_from(args + more, args.len() + k, p) == parsed_from(more, k, p),
    decreases more.len() - k,
{
    let both = args + more;
    let i = args.len() + k;
    if k < more.len() {
        assert(both[i] == more[k]);
        if takes_value(more[k]) {
            if k + 1 < more.len() {
                assert(both[i + 1] == more[k + 1]);
                lemma_shift(args, more, k + 2, with_value(p, more[k], more[k + 1]));
            }
        } else {
            lemma_shift(
                args,
                more,
                k + 1,
                Parsed { config: with_flag(p.config, more[k]), ..p },
            );
        }
    }
}

/// Arguments are read one after the other: what stands behind a complete
/// command line works on the outcome of that command line, so it wins.
pub proof fn lemma_later_arguments_win(
    platform: Platform,
    args: Seq<Seq<char>>,
    more: Seq<Seq<char>>,
)
    requires
        complete_from(args, 0),
    ensures
        parsed(platform, args + more) == parsed_from(more, 0, parsed(platform, args)),
{
    lemma_append_from(
        args,
        more,
        0,
        Parsed { config: default_config(platform), problems: Seq::empty() },
    );
}

/// The arguments that mean something.
pub open spec fn is_known(arg: Seq<char>) -> bool {
    ||| takes_value(arg)
    ||| arg == "--server"@
    ||| arg == "--overlay"@
    ||| arg == "--all"@
    ||| arg == "--tunnel"@
    ||| arg == "--no-tunnel"@
    ||| arg == "--follow-fullscreen"@
    ||| arg == "--follow-window"@
    ||| arg == "--follow-monitor"@
    ||| arg == "--list-monitors"@
}

/// An unknown argument changes nothing, wherever it stands, unless it stands
/// where an argument ahead of it takes it as its value.
pub proof fn lemma_unknown_argument_is_ignored(
    platform: Platform,
    args: Seq<Seq<char>>,
    arg: Seq<char>,
    more: Seq<Seq<char>>,
)
    requires
        complete_from(args, 0),
        !is_known(arg),
    ensures
        parsed(platform, args.push(arg) + more) == parsed(platform, args + more),
{
    let p = parsed(platform, args);
    let tail = seq![arg] + more;
    lemma_later_arguments_win(platform, args, tail);
    lemma_later_arguments_win(platform, args, more);
    lemma_shift(seq![arg], more, 0, p);
    assert(tail[0] == arg);
    assert(parsed_from(tail, 0, p) == parsed_from(tail, 1, p));
    assert(args + tail =~= args.push(arg) + more);
}

/// Of a command line without arguments that take a value nothing is reported,
/// and it leaves the port, the monitor and the version of IP at their defaults.
pub proof fn lemma_flags_report_nothing(platform: Platform, args: Seq<Seq<char>>)
    requires
        forall|i: int| 0 <= i < args.len() ==> !takes_value(#[trigger] args[i]),
    ensures
        parsed(platform, args).problems == Seq::<Seq<char>>::empty(),
        parsed(platform, args).config.port == DEFAULT_PORT,
        parsed(platform, args).config.monitor_index is None,
        parsed(platform, args).config.edge_ip_preference is Auto,
{
    lemma_flags_from(
        args,
        0,
        Parsed { config: default_config(platform), problems: Seq::empty() },
    );
}

proof fn lemma_flags_from(args: Seq<Seq<char>>, i: int, p: Parsed)
    requires
        0 <= i,
        forall|i: int| 0 <= i < args.len() ==> !takes_value(#[trigger] args[i]),
    ensures
        parsed_from(args, i, p).problems == p.problems,
        parsed_from(args, i, p).config.port == p.config.port,
        parsed_from(args, i, p).config.monitor_index == p.config.monitor_index,
        parsed_from(args, i, p).config.edge_ip_preference == p.config.edge_ip_preference,
    decreases args.len() - i,
{
    if i < args.len() {
        lemma_flags_from(args, i + 1, Parsed { config: with_flag(p.config, args[i]), ..p });
    }
}

proof fn lemma_names_differ()
    ensures
        "--server"@.len() == 8,
        "--overlay"@.len() == 9,
        "--all"@.len() == 5,
        "--tunnel"@.len() == 8,
        "--no-tunnel"@.len() == 11,
        "--follow-fullscreen"@.len() == 19,
        "--follow-window"@.len() == 15,
        "--follow-monitor"@.len() == 16,
        "--list-monitors"@.len() == 15,
        "--edge-ip-version"@.len() == 17,
        "--monitor"@.len() == 9,
        "--port"@.len() == 6,
        "--server"@ != "--tunnel"@,
        "--overlay"@ != "--monitor"@,
        "--follow-window"@ != "--list-monitors"@,
        "4"@ != "6"@,
        "auto"@.len() == 4,
        "4"@.len() == 1,
        "6"@.len() == 1,
{
    reveal_strlit("--server");
    reveal_strlit("--overlay");
    reveal_strlit("--all");
    reveal_strlit("--tunnel");
    reveal_strlit("--no-tunnel");
    reveal_strlit("--follow-fullscreen");
    reveal_strlit("--follow-window");
    reveal_strlit("--follow-monitor");
    reveal_strlit("--list-monitors");
    reveal_strlit("--edge-ip-version");
    reveal_strlit("--monitor");
    reveal_strlit("--port");
    reveal_strlit("4");
    reveal_strlit("6");
    reveal_strlit("auto");
    assert("--server"@[2] == 's' && "--tunnel"@[2] == 't');
    assert("--overlay"@[2] == 'o' && "--monitor"@[2] == 'm');
    assert("--follow-window"@[2] == 'f' && "--list-monitors"@[2] == 'l');
    assert("4"@[0] == '4' && "6"@[0] == '6');
}

/// The arguments that name what is started.
pub open spec fn names_mode(a: Seq<char>) -> bool {
    a == "--server"@ || a == "--overlay"@ || a == "--all"@
}

/// The arguments that name what the overlay covers.
pub open spec fn names_attach(a: Seq<char>) -> bool {
    a == "--follow-fullscreen"@ || a == "--follow-window"@ || a == "--follow-monitor"@
}

/// The arguments that say whether there is a tunnel.
pub open spec fn names_tunnel(a: Seq<char>) -> bool {
    a == "--tunnel"@ || a == "--no-tunnel"@
}

/// The arguments that are read together with the one behind them.
pub open spec fn names_value(a: Seq<char>) -> bool {
    a == "--edge-ip-version"@ || a == "--monitor"@ || a == "--port"@
}

/// What stands at `i` is read as an argument, not as the value of the one ahead
/// of it.
pub open spec fn read_at(args: Seq<Seq<char>>, i: int) -> bool
    decreases i,
{
    i <= 0 || !(read_at(args, i - 1) && names_value(args[i - 1]))
}

/// One of the settings that arguments change.
enum Setting {
    Mode,
    Attach,
    Tunnel,
    ListMonitors,
    Port,
    Monitor,
    EdgeVersion,
}

spec fn fits(args: Seq<Seq<char>>, j: int) -> bool {
    &&& j + 1 < args.len()
    &&& if args[j] == "--port"@ {
        port_in(args[j + 1]) is Some
    } else if args[j] == "--monitor"@ {
        index_in(args[j + 1]) is Some
    } else {
        args[j + 1] == "4"@ || args[j + 1] == "6"@ || args[j + 1] == "auto"@
    }
}

spec fn sets(s: Setting, args: Seq<Seq<char>>, j: int) -> bool {
    match s {
        Setting::Mode => names_mode(args[j]),
        Setting::Attach => names_attach(args[j]),
        Setting::Tunnel => names_tunnel(args[j]),
        Setting::ListMonitors => args[j] == "--list-monitors"@,
        Setting::Port => args[j] == "--port"@ && fits(args, j),
        Setting::Monitor => args[j] == "--monitor"@ && fits(args, j),
        Setting::EdgeVersion => args[j] == "--edge-ip-version"@ && fits(args, j),
    }
}

spec fn agree(s: Setting, a: AppConfig, b: AppConfig) -> bool {
    match s {
        Setting::Mode => a.mode == b.mode,
        Setting::Attach => a.overlay_attach_mode == b.overlay_attach_mode,
        Setting::Tunnel => a.tunnel_preference == b.tunnel_preference,
        Setting::ListMonitors => a.list_monitors == b.list_monitors,
        Setting::Port => a.port == b.port,
        Setting::Monitor => a.monitor_index == b.monitor_index,
        Setting::EdgeVersion => a.edge_ip_preference == b.edge_ip_preference,
    }
}

spec fn quiet_from(s: Setting, args: Seq<Seq<char>>, i: int) -> bool {
    forall|j: int| i <= j < args.len() && #[trigger] read_at(args, j) ==> !sets(s, args, j)
}

spec fn told(args: Seq<Seq<char>>, k: int, p: Parsed) -> AppConfig {
    if names_value(args[k]) {
        with_value(p, args[k], args[k + 1]).config
    } else {
        with_flag(p.config, args[k])
    }
}

proof fn lemma_last_one_tells(s: Setting, args: Seq<Seq<char>>, i: int, p: Parsed, k: int)
    requires
        0 <= i,
        read_at(args, i),
    ensures
        quiet_from(s, args, i) ==> agree(s, parsed_from(args, i, p).config, p.config),
        i <= k < args.len() && read_at(args, k) && sets(s, args, k) && quiet_from(s, args, k + 1)
            ==> agree(s, parsed_from(args, i, p).config, told(args, k, p)),
    decreases args.len() - i,
{
    lemma_names_differ();
    if i < args.len() {
        if takes_value(args[i]) {
            assert(!read_at(args, i + 1));
            assert(read_at(args, i + 2));
            if i + 1 < args.len() {
                let q = with_value(p, args[i], args[i + 1]);
                lemma_last_one_tells(s, args, i + 2, q, k);
                if quiet_from(s, args, i + 1) {
                    assert(quiet_from(s, args, i + 2));
                }
                if !sets(s, args, i) {
                    assert(agree(s, q.config, p.config));
                }
            }
        } else {
            assert(read_at(args, i + 1));
            let q = Parsed { config: with_flag(p.config, args[i]), ..p };
            lemma_last_one_tells(s, args, i + 1, q, k);
            if !sets(s, args, i) {
                assert(agree(s, q.config, p.config));
            }
        }
    }
}

/// What is started is what the last of `--server`, `--overlay` and `--all` says
/// that is read as an argument, and everything where there is none.
pub proof fn lemma_last_mode_counts(platform: Platform, args: Seq<Seq<char>>, k: int)
    ensures
        ({
            let mode = parsed(platform, args).config.mode;
            let last = 0 <= k < args.len() && read_at(args, k) && forall|j: int|
                k < j < args.len() && #[trigger] read_at(args, j) ==> args[j] != "--server"@
                    && args[j] != "--overlay"@ && args[j] != "--all"@;
            &&& last && args[k] == "--server"@ ==> mode is Server
            &&& last && args[k] == "--overlay"@ ==> mode is Overlay
            &&& last && args[k] == "--all"@ ==> mode is All
            &&& (forall|j: int|
                0 <= j < args.len() && #[trigger] read_at(args, j) ==> args[j] != "--server"@
                    && args[j] != "--overlay"@ && args[j] != "--all"@) ==> mode is All
        }),
{
    let p = Parsed { config: default_config(platform), problems: Seq::empty() };
    lemma_names_differ();
    lemma_last_one_tells(Setting::Mode, args, 0, p, k);
}

/// What the overlay covers is what the last of the `--follow-` arguments says
/// that is read as an argument. Without one it is the frontmost window on macOS
/// and a monitor elsewhere.
pub proof fn lemma_last_attach_mode_counts(platform: Platform, args: Seq<Seq<char>>, k: int)
    ensures
        ({
            let attach = parsed(platform, args).config.overlay_attach_mode;
            let last = 0 <= k < args.len() && read_at(args, k) && forall|j: int|
                k < j < args.len() && #[trigger] read_at(args, j) ==> args[j]
                    != "--follow-fullscreen"@ && args[j] != "--follow-window"@ && args[j]
                    != "--follow-monitor"@;
            &&& last && args[k] == "--follow-fullscreen"@ ==> attach is FullscreenWindow
            &&& last && args[k] == "--follow-window"@ ==> attach is FrontmostWindow
            &&& last && args[k] == "--follow-monitor"@ ==> attach is Monitor
            &&& (forall|j: int|
                0 <= j < args.len() && #[trigger] read_at(args, j) ==> args[j]
                    != "--follow-fullscreen"@ && args[j] != "--follow-window"@ && args[j]
                    != "--follow-monitor"@) ==> (if platform is MacOs {
                attach is FrontmostWindow
            } else {
                attach is Monitor
            })
        }),
{
    let p = Parsed { config: default_config(platform), problems: Seq::empty() };
    lemma_names_differ();
    lemma_last_one_tells(Setting::Attach, args, 0, p, k);
}

/// Whether there is a tunnel is what the last of `--tunnel` and `--no-tunnel`
/// says that is read as an argument, and asked for where there is none.
pub proof fn lemma_last_tunnel_argument_counts(platform: Platform, args: Seq<Seq<char>>, k: int)
    ensures
        ({
            let tunnel = parsed(platform, args).config.tunnel_preference;
            let last = 0 <= k < args.len() && read_at(args, k) && forall|j: int|
                k < j < args.len() && #[trigger] read_at(args, j) ==> args[j] != "--tunnel"@
                    && args[j] != "--no-tunnel"@;
            &&& last && args[k] == "--tunnel"@ ==> tunnel is Always
            &&& last && args[k] == "--no-tunnel"@ ==> tunnel is Never
            &&& (forall|j: int|
                0 <= j < args.len() && #[trigger] read_at(args, j) ==> args[j] != "--tunnel"@
                    && args[j] != "--no-tunnel"@) ==> tunnel is Ask
        }),
{
    let p = Parsed { config: default_config(platform), problems: Seq::empty() };
    lemma_names_differ();
    lemma_last_one_tells(Setting::Tunnel, args, 0, p, k);
}

/// The monitors are listed exactly where `--list-monitors` is among what is read
/// as an argument.
pub proof fn lemma_list_is_asked_for(platform: Platform, args: Seq<Seq<char>>)
    ensures
        parsed(platform, args).config.list_monitors <==> exists|k: int|
            0 <= k < args.len() && #[trigger] read_at(args, k) && args[k] == "--list-monitors"@,
{
    let p = Parsed { config: default_config(platform), problems: Seq::empty() };
    lemma_names_differ();
    lemma_last_one_tells(Setting::ListMonitors, args, 0, p, 0);
    if exists|k: int|
        0 <= k < args.len() && #[trigger] read_at(args, k) && args[k] == "--list-monitors"@ {
        let k = choose|k: int|
            0 <= k < args.len() && #[trigger] read_at(args, k) && args[k] == "--list-monitors"@;
        lemma_list_stays(args, 0, p, k);
    } else {
        assert(quiet_from(Setting::ListMonitors, args, 0));
    }
}

proof fn lemma_list_stays(args: Seq<Seq<char>>, i: int, p: Parsed, k: int)
    requires
        0 <= i,
        read_at(args, i),
        p.config.list_monitors || i <= k < args.len() && read_at(args, k) && args[k]
            == "--list-monitors"@,
    ensures
        parsed_from(args, i, p).config.list_monitors,
    decreases args.len() - i,
{
    lemma_names_differ();
    if i < args.len() {
        if takes_value(args[i]) {
            assert(!read_at(args, i + 1));
            assert(read_at(args, i + 2));
            if i + 1 < args.len() {
                lemma_list_stays(args, i + 2, with_value(p, args[i], args[i + 1]), k);
            }
        } else {
            assert(read_at(args, i + 1));
            let q = Parsed { config: with_flag(p.config, args[i]), ..p };
            lemma_list_stays(args, i + 1, q, k);
        }
    }
}

/// The port is the value of the last `--port` whose value is a number in its
/// range, and 3000 where there is none.
pub proof fn lemma_last_port_counts(platform: Platform, args: Seq<Seq<char>>, k: int, n: int)
    ensures
        ({
            let port = parsed(platform, args).config.port;
            let names = |j: int, n: int|
                args[j] == "--port"@ && j + 1 < args.len() && decimal::unsigned_decimal(
                    args[j + 1],
                ) == Some(n) && n <= 65535;
            &&& 0 <= k < args.len() && read_at(args, k) && names(k, n) && (forall|j: int, m: int|
                k < j < args.len() && #[trigger] read_at(args, j) ==> !#[trigger] names(j, m))
                ==> port == n
            &&& (forall|j: int, m: int|
                0 <= j < args.len() && #[trigger] read_at(args, j) ==> !#[trigger] names(j, m))
                ==> port == 3000
        }),
{
    let p = Parsed { config: default_config(platform), problems: Seq::empty() };
    let names = |j: int, n: int|
        args[j] == "--port"@ && j + 1 < args.len() && decimal::unsigned_decimal(args[j + 1])
            == Some(n) && n <= 65535;
    lemma_names_differ();
    lemma_last_one_tells(Setting::Port, args, 0, p, k);
    assert forall|i: int|
        (forall|j: int, m: int|
            i <= j < args.len() && #[trigger] read_at(args, j) ==> !#[trigger] names(j, m))
        implies #[trigger] quiet_from(Setting::Port, args, i) by {
        assert forall|j: int| i <= j < args.len() && #[trigger] read_at(args, j) implies !sets(
            Setting::Port,
            args,
            j,
        ) by {
            if sets(Setting::Port, args, j) {
                let m = decimal::unsigned_decimal(args[j + 1]).unwrap();
                assert(names(j, m));
            }
        }
    }
    if 0 <= k < args.len() && names(k, n) {
        lemma_unsigned_is_not_negative(args[k + 1]);
    }
}

proof fn lemma_unsigned_is_not_negative(s: Seq<char>)
    ensures
        decimal::unsigned_decimal(s) matches Some(n) ==> n >= 0,
{
}

/// The monitor is the value of the last `--monitor` whose value is a number in
/// its range, and none where there is none.
pub proof fn lemma_last_monitor_counts(platform: Platform, args: Seq<Seq<char>>, k: int, n: int)
    ensures
        ({
            let monitor = parsed(platform, args).config.monitor_index;
            let names = |j: int, n: int|
                args[j] == "--monitor"@ && j + 1 < args.len() && decimal::signed_decimal(
                    args[j + 1],
                ) == Some(n) && i32::MIN <= n <= i32::MAX;
            &&& 0 <= k < args.len() && read_at(args, k) && names(k, n) && (forall|j: int, m: int|
                k < j < args.len() && #[trigger] read_at(args, j) ==> !#[trigger] names(j, m))
                ==> (monitor matches Some(idx) && idx == n)
            &&& (forall|j: int, m: int|
                0 <= j < args.len() && #[trigger] read_at(args, j) ==> !#[trigger] names(j, m))
                ==> monitor is None
        }),
{
    let p = Parsed { config: default_config(platform), problems: Seq::empty() };
    let names = |j: int, n: int|
        args[j] == "--monitor"@ && j + 1 < args.len() && decimal::signed_decimal(args[j + 1])
            == Some(n) && i32::MIN <= n <= i32::MAX;
    lemma_names_differ();
    lemma_last_one_tells(Setting::Monitor, args, 0, p, k);
    assert forall|i: int|
        (forall|j: int, m: int|
            i <= j < args.len() && #[trigger] read_at(args, j) ==> !#[trigger] names(j, m))
        implies #[trigger] quiet_from(Setting::Monitor, args, i) by {
        assert forall|j: int| i <= j < args.len() && #[trigger] read_at(args, j) implies !sets(
            Setting::Monitor,
            args,
            j,
        ) by {
            if sets(Setting::Monitor, args, j) {
                let m = decimal::signed_decimal(args[j + 1]).unwrap();
                assert(names(j, m));
            }
        }
    }
}

/// The version of IP is the value of the last `--edge-ip-version` whose value is
/// 4, 6 or auto, and chosen automatically where there is none.
pub proof fn lemma_last_edge_version_counts(platform: Platform, args: Seq<Seq<char>>, k: int)
    ensures
        ({
            let edge = parsed(platform, args).config.edge_ip_preference;
            let last = 0 <= k < args.len() - 1 && read_at(args, k) && args[k]
                == "--edge-ip-version"@ && forall|j: int|
                k < j < args.len() - 1 && #[trigger] read_at(args, j) ==> args[j]
                    != "--edge-ip-version"@ || (args[j + 1] != "4"@ && args[j + 1] != "6"@ && args[j
                    + 1] != "auto"@);
            &&& last && args[k + 1] == "4"@ ==> edge is V4
            &&& last && args[k + 1] == "6"@ ==> edge is V6
            &&& last && args[k + 1] == "auto"@ ==> edge is Auto
            &&& (forall|j: int|
                0 <= j < args.len() - 1 && #[trigger] read_at(args, j) ==> args[j]
                    != "--edge-ip-version"@ || (args[j + 1] != "4"@ && args[j + 1] != "6"@ && args[j
                    + 1] != "auto"@)) ==> edge is Auto
        }),
{
    let p = Parsed { config: default_config(platform), problems: Seq::empty() };
    lemma_names_differ();
    lemma_last_one_tells(Setting::EdgeVersion, args, 0, p, k);
}

/// Behind a complete command line, an argument changes the one setting that it
/// names and nothing else, and is never reported.
pub proof fn lemma_flag_changes_one_setting(
    platform: Platform,
    args: Seq<Seq<char>>,
    arg: Seq<char>,
)
    requires
        complete_from(args, 0),
        arg != "--edge-ip-version"@,
        arg != "--monitor"@,
        arg != "--port"@,
    ensures
        ({
            let a = parsed(platform, args);
            let b = parsed(platform, args.push(arg));
            &&& b.problems == a.problems
            &&& b.config.port == a.config.port
            &&& b.config.monitor_index == a.config.monitor_index
            &&& b.config.edge_ip_preference == a.config.edge_ip_preference
            &&& !(arg == "--server"@ || arg == "--overlay"@ || arg == "--all"@) ==> b.config.mode
                == a.config.mode
            &&& !(arg == "--tunnel"@ || arg == "--no-tunnel"@) ==> b.config.tunnel_preference
                == a.config.tunnel_preference
            &&& !(arg == "--follow-fullscreen"@ || arg == "--follow-window"@ || arg
                == "--follow-monitor"@) ==> b.config.overlay_attach_mode
                == a.config.overlay_attach_mode
            &&& arg != "--list-monitors"@ ==> b.config.list_monitors == a.config.list_monitors
            &&& arg == "--list-monitors"@ ==> b.config.list_monitors
        }),
{
    lemma_names_differ();
    let more = seq![arg];
    let a = parsed(platform, args);
    let b = Parsed { config: with_flag(a.config, arg), ..a };
    lemma_later_arguments_win(platform, args, more);
    assert(args + more =~= args.push(arg));
    assert(more[0] == arg && more.len() == 1);
    assert(parsed_from(more, 0, a) == parsed_from(more, 1, b));
    assert(parsed_from(more, 1, b) == b);
}

/// Behind a complete command line, an argument and its value change the one
/// setting that the argument names, where the value fits. Where it does not,
/// nothing changes and one problem is reported, which names both.
pub proof fn lemma_value_changes_one_setting(
    platform: Platform,
    args: Seq<Seq<char>>,
    arg: Seq<char>,
    v: Seq<char>,
)
    requires
        complete_from(args, 0),
        arg == "--edge-ip-version"@ || arg == "--monitor"@ || arg == "--port"@,
    ensures
        ({
            let a = parsed(platform, args);
            let b = parsed(platform, args + seq![arg, v]);
            let fits = if arg == "--port"@ {
                decimal::unsigned_decimal(v) matches Some(n) && n <= 65535
            } else if arg == "--monitor"@ {
                decimal::signed_decimal(v) matches Some(n) && i32::MIN <= n <= i32::MAX
            } else {
                v == "4"@ || v == "6"@ || v == "auto"@
            };
            &&& b.config.mode == a.config.mode
            &&& b.config.tunnel_preference == a.config.tunnel_preference
            &&& b.config.overlay_attach_mode == a.config.overlay_attach_mode
            &&& b.config.list_monitors == a.config.list_monitors
            &&& !fits || arg != "--port"@ ==> b.config.port == a.config.port
            &&& !fits || arg != "--monitor"@ ==> b.config.monitor_index == a.config.monitor_index
            &&& !fits || arg != "--edge-ip-version"@ ==> b.config.edge_ip_preference
                == a.config.edge_ip_preference
            &&& fits ==> b.problems == a.problems
            &&& !fits && arg == "--port"@ ==> b.problems == a.problems.push(
                "invalid --port value: "@ + v,
            )
            &&& !fits && arg == "--monitor"@ ==> b.problems == a.problems.push(
                "invalid --monitor value: "@ + v,
            )
            &&& !fits && arg == "--edge-ip-version"@ ==> b.problems == a.problems.push(
                "invalid --edge-ip-version value: "@ + v + " (use 4/6/auto)"@,
            )
        }),
{
    lemma_names_differ();
    let more = seq![arg, v];
    let a = parsed(platform, args);
    lemma_later_arguments_win(platform, args, more);
    assert(more[0] == arg && more[1] == v && more.len() == 2);
    assert(parsed_from(more, 0, a) == parsed_from(more, 2, with_value(a, arg, v)));
    assert(parsed_from(more, 2, with_value(a, arg, v)) == with_value(a, arg, v));
}

/// An argument whose value is missing changes nothing and is reported by its
/// name.
pub proof fn lemma_missing_value_is_reported(
    platform: Platform,
    args: Seq<Seq<char>>,
    arg: Seq<char>,
)
    requires
        complete_from(args, 0),
        arg == "--edge-ip-version"@ || arg == "--monitor"@ || arg == "--port"@,
    ensures
        parsed(platform, args.push(arg)).config == parsed(platform, args).config,
        parsed(platform, args.push(arg)).problems == parsed(platform, args).problems.push(
            "missing value for "@ + arg,
        ),
{
    lemma_later_arguments_win(platform, args, seq![arg]);
    assert(args + seq![arg] =~= args.push(arg));
    reveal_with_fuel(parsed_from, 2);
}

/// A configuration and its problems are seen as what they hold.
pub proof fn lemma_views(p: ParsedArgs)
    ensures
        p@.config == p.config,
        p@.problems.len() == p.problems@.len(),
        forall|i: int|
            0 <= i < p.problems@.len() ==> #[trigger] p@.problems[i] == p.problems@[i]@,
{
}

} // verus!
