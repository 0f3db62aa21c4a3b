//! What is asked and what is started when the program comes up.

use vstd::prelude::*;

use crate::config::{OverlayAttachMode, Platform, RunMode, TunnelPreference};
use crate::text;

verus! {

/// The code page of UTF-8 on a Windows console.
pub const UTF8_CODE_PAGE: u32 = 65001;

/// The code page that a console is switched to, where it needs one.
pub fn enable_utf8_console(platform: Platform) -> (r: Option<u32>)
    ensures
        r == (if platform is Windows {
            Some(UTF8_CODE_PAGE)
        } else {
            None
        }),
{
    match platform {
        Platform::Windows => Some(UTF8_CODE_PAGE),
        _ => None,
    }
}

/// Whether the tunnel is to be started, or none where that is to be asked.
pub open spec fn tunnel_decision(mode: RunMode, preference: TunnelPreference) -> Option<bool> {
    if mode is Overlay {
        Some(false)
    } else {
        match preference {
            TunnelPreference::Always => Some(true),
            TunnelPreference::Never => Some(false),
            TunnelPreference::Ask => None,
        }
    }
}

/// Whether the tunnel is to be started, or none where that is to be asked.
/// Without a server there is nothing to tunnel to.
pub fn resolve_tunnel_enabled(mode: RunMode, preference: TunnelPreference) -> (r: Option<bool>)
    ensures
        r == tunnel_decision(mode, preference),
{
    match mode {
        RunMode::Overlay => return Some(false),
        _ => {},
    }
    match preference {
        TunnelPreference::Always => Some(true),
        TunnelPreference::Never => Some(false),
        TunnelPreference::Ask => None,
    }
}

/// `c`, where it is an ASCII capital letter its small letter.
pub open spec fn ascii_small(c: char) -> char {
    if 'A' <= c <= 'Z' {
        (c as int + 32) as char
    } else {
        c
    }
}

/// `s` in small letters, as far as it is ASCII.
pub open spec fn ascii_lowercase(s: Seq<char>) -> Seq<char> {
    s.map_values(|c: char| ascii_small(c))
}

/// Whether `word`, which holds small letters, is `s` but for ASCII capitals.
fn is_word(s: &str, word: &str) -> (r: bool)
    ensures
        r == (ascii_lowercase(s@) == word@),
{
    let v = text::chars_of(s);
    let w = text::chars_of(word);
    if v.len() != w.len() {
        return false;
    }
    let mut i: usize = 0;
    while i < v.len()
        invariant
            i <= v.len(),
            v.len() == w.len(),
            v@ == s@,
            w@ == word@,
            forall|k: int| 0 <= k < i ==> ascii_small(v@[k]) == #[trigger] w@[k],
        decreases v.len() - i,
    {
        let c = v[i];
        let small: char = if 'A' <= c && c <= 'Z' {
            (c as u8 + 32) as char
        } else {
            c
        };
        if small != w[i] {
            assert(ascii_lowercase(s@)[i as int] != word@[i as int]);
            return false;
        }
        i = i + 1;
    }
    assert(ascii_lowercase(s@) =~= word@);
    true
}

/// What the answer `input` to the question for a tunnel says, or none where
/// the question is to be put again.
pub open spec fn tunnel_answer(input: Option<Seq<char>>) -> Option<bool> {
    match input {
        None => Some(true),
        Some(s) => {
            let word = ascii_lowercase(text::trimmed(s));
            if word.len() == 0 || word == "y"@ || word == "yes"@ {
                Some(true)
            } else if word == "n"@ || word == "no"@ {
                Some(false)
            } else {
                None
            }
        },
    }
}

/// What the answer `input` to the question for a tunnel says, where none stands
/// for a failure to read one. No result means that the question is to be put
/// again.
pub fn prompt_enable_tunnel(input: Option<&str>) -> (r: Option<bool>)
    ensures
        r == tunnel_answer(
            match input {
                Some(s) => Some(s@),
                None => None,
            },
        ),
{
    let word = match input {
        Some(s) => text::trim(s),
        None => return Some(true),
    };
    if word.unicode_len() == 0 || is_word(word, "y") || is_word(word, "yes") {
        return Some(true);
    }
    if is_word(word, "n") || is_word(word, "no") {
        return Some(false);
    }
    None
}

/// Whether a monitor is asked for: not where the overlay follows the frontmost
/// window, which only macOS can do.
pub open spec fn asks_for_monitor(attach_mode: OverlayAttachMode, platform: Platform) -> bool {
    !(platform is MacOs && attach_mode is FrontmostWindow)
}

/// Whether a monitor is to be asked for.
pub fn should_prompt_monitor(attach_mode: OverlayAttachMode, platform: Platform) -> (r: bool)
    ensures
        r == asks_for_monitor(attach_mode, platform),
{
    match (platform, attach_mode) {
        (Platform::MacOs, OverlayAttachMode::FrontmostWindow) => false,
        _ => true,
    }
}

/// What is done with the monitors at the start.
#[derive(Clone, Copy, Debug, PartialEq, Eq, Structural)]
pub struct MonitorPlan {
    /// Report that there is no monitor for the overlay.
    pub report_missing: bool,
    /// List the monitors.
    pub list: bool,
    /// Ask which one the overlay is to cover.
    pub ask: bool,
}

/// What is done with the monitors at the start.
pub open spec fn monitor_plan(
    mode: RunMode,
    any_monitor: bool,
    chosen: bool,
    list_asked: bool,
    attach_mode: OverlayAttachMode,
    platform: Platform,
) -> MonitorPlan {
    let overlay = !(mode is Server);
    MonitorPlan {
        report_missing: overlay && !any_monitor,
        list: if overlay {
            any_monitor
        } else {
            list_asked
        },
        ask: overlay && any_monitor && !chosen && asks_for_monitor(attach_mode, platform),
    }
}

/// Decides what is done with the monitors at the start, from whether there is
/// one, whether one was chosen by an argument, and whether a list was asked for.
pub fn plan_monitors(
    mode: RunMode,
    any_monitor: bool,
    chosen: bool,
    list_asked: bool,
    attach_mode: OverlayAttachMode,
    platform: Platform,
) -> (r: MonitorPlan)
    ensures
        r == monitor_plan(mode, any_monitor, chosen, list_asked, attach_mode, platform),
{
    match mode {
        RunMode::Server => MonitorPlan { report_missing: false, list: list_asked, ask: false },
        _ => {
            if any_monitor {
                MonitorPlan {
                    report_missing: false,
                    list: true,
                    ask: !chosen && should_prompt_monitor(attach_mode, platform),
                }
            } else {
                MonitorPlan { report_missing: true, list: false, ask: false }
            }
        },
    }
}

/// What is started.
#[derive(Clone, Copy, Debug, PartialEq, Eq, Structural)]
pub struct LaunchPlan {
    pub server: bool,
    pub tunnel: bool,
    pub overlay: bool,
    /// Say that the tunnel that was asked for is not started.
    pub tunnel_ignored: bool,
    /// Say that the overlay is switched off.
    pub overlay_disabled: bool,
}

/// What is started: the server and with it the tunnel unless there is only the
/// overlay, and the overlay unless there is only the server or the monitor was
/// chosen as -1.
pub open spec fn launch_plan(mode: RunMode, tunnel: bool, monitor: Option<i32>) -> LaunchPlan {
    let wants_overlay = !(mode is Server);
    let switched_off = monitor == Some(-1i32);
    LaunchPlan {
        server: !(mode is Overlay),
        tunnel: tunnel && !(mode is Overlay),
        overlay: wants_overlay && !switched_off,
        tunnel_ignored: tunnel && mode is Overlay,
        overlay_disabled: wants_overlay && switched_off,
    }
}

/// Decides what is started, from whether a tunnel is wanted and which monitor
/// was chosen.
pub fn plan_launch(mode: RunMode, tunnel: bool, monitor: Option<i32>) -> (r: LaunchPlan)
    ensures
        r == launch_plan(mode, tunnel, monitor),
{
    let switched_off = match monitor {
        Some(idx) => idx == -1,
        None => false,
    };
    match mode {
        RunMode::Server => LaunchPlan {
            server: true,
            tunnel,
            overlay: false,
            tunnel_ignored: false,
            overlay_disabled: false,
        },
        RunMode::Overlay => LaunchPlan {
            server: false,
            tunnel: false,
            overlay: !switched_off,
            tunnel_ignored: tunnel,
            overlay_disabled: switched_off,
        },
        RunMode::All => LaunchPlan {
            server: true,
            tunnel,
            overlay: !switched_off,
            tunnel_ignored: false,
            overlay_disabled: switched_off,
        },
    }
}

/// With the server alone nobody is asked for a monitor and no overlay runs.
pub proof fn lemma_server_alone(
    any_monitor: bool,
    chosen: bool,
    list_asked: bool,
    attach_mode: OverlayAttachMode,
    platform: Platform,
    tunnel: bool,
    monitor: Option<i32>,
)
    ensures
        !monitor_plan(
            RunMode::Server,
            any_monitor,
            chosen,
            list_asked,
            attach_mode,
            platform,
        ).ask,
        !launch_plan(RunMode::Server, tunnel, monitor).overlay,
{
}

/// Nobody is asked for a tunnel where the arguments demand it or rule it out,
/// and then it is started exactly as they say, unless the overlay runs alone.
pub proof fn lemma_tunnel_arguments_decide(mode: RunMode, monitor: Option<i32>)
    ensures
        tunnel_decision(mode, TunnelPreference::Always) matches Some(b) && launch_plan(
            mode,
            b,
            monitor,
        ).tunnel == !(mode is Overlay),
        tunnel_decision(mode, TunnelPreference::Never) matches Some(b) && !launch_plan(
            mode,
            b,
            monitor,
        ).tunnel,
{
}

/// Who serves can tunnel: what is started follows from the mode, and a tunnel
/// that is wanted is either started with the server or said to be ignored.
pub proof fn lemma_launch(mode: RunMode, tunnel: bool, monitor: Option<i32>)
    ensures
        ({
            let p = launch_plan(mode, tunnel, monitor);
            &&& p.server <==> mode is Server || mode is All
            &&& p.tunnel <==> tunnel && p.server
            &&& p.tunnel_ignored <==> tunnel && !p.server
            &&& p.overlay || p.overlay_disabled <==> mode is Overlay || mode is All
            &&& !(p.overlay && p.overlay_disabled)
            &&& p.overlay_disabled ==> monitor == Some(-1i32)
            &&& p.overlay ==> monitor != Some(-1i32)
        }),
{
}

/// Which monitor is chosen decides on the overlay alone, and only by being -1.
pub proof fn lemma_monitor_decides_on_overlay_alone(
    mode: RunMode,
    tunnel: bool,
    a: Option<i32>,
    b: Option<i32>,
)
    ensures
        launch_plan(mode, tunnel, a).server == launch_plan(mode, tunnel, b).server,
        launch_plan(mode, tunnel, a).tunnel == launch_plan(mode, tunnel, b).tunnel,
        launch_plan(mode, tunnel, a).tunnel_ignored == launch_plan(mode, tunnel, b).tunnel_ignored,
        (a == Some(-1i32)) == (b == Some(-1i32)) ==> launch_plan(mode, tunnel, a) == launch_plan(
            mode,
            tunnel,
            b,
        ),
{
}

/// A monitor is asked for exactly where an overlay is wanted, there is a
/// monitor, none was chosen, and the overlay does not follow the frontmost
/// window of macOS. The monitors are listed ahead of the question, and also
/// where the server alone is asked to list them. A missing monitor is reported
/// exactly where an overlay is wanted.
pub proof fn lemma_monitor_question(
    mode: RunMode,
    any_monitor: bool,
    chosen: bool,
    list_asked: bool,
    attach_mode: OverlayAttachMode,
    platform: Platform,
)
    ensures
        ({
            let p = monitor_plan(mode, any_monitor, chosen, list_asked, attach_mode, platform);
            &&& p.ask ==> p.list && !chosen
            &&& p.ask <==> mode !is Server && any_monitor && !chosen && (platform !is MacOs
                || attach_mode !is FrontmostWindow)
            &&& mode is Server ==> p.list == list_asked
            &&& mode !is Server ==> p.list == any_monitor
            &&& p.report_missing <==> mode !is Server && !any_monitor
        }),
{
}

/// A decision on the tunnel is missing exactly where it is to be asked for, and
/// one that is there is what the arguments say, without a server none.
pub proof fn lemma_tunnel_is_asked_for(mode: RunMode, preference: TunnelPreference)
    ensures
        tunnel_decision(mode, preference) is None <==> preference is Ask && mode !is Overlay,
        tunnel_decision(mode, preference) == Some(true) <==> preference is Always && mode
            !is Overlay,
{
}

/// Capital letters A to Z count as small ones and no other character as another
/// one, place by place.
pub proof fn lemma_ascii_lowercase(s: Seq<char>)
    ensures
        ascii_lowercase(s).len() == s.len(),
        forall|i: int|
            0 <= i < s.len() ==> {
                if 65 <= #[trigger] s[i] as int <= 90 {
                    ascii_lowercase(s)[i] as int == s[i] as int + 32
                } else {
                    ascii_lowercase(s)[i] == s[i]
                }
            },
{
}

/// Nothing, `y` and `yes` mean a tunnel, `n` and `no` mean none, and every other
/// word is asked about again, whatever stands around the word and whether its
/// letters are capital. Where no answer can be read, there is a tunnel.
pub proof fn lemma_tunnel_answer(s: Seq<char>)
    ensures
        ({
            let word = ascii_lowercase(text::trimmed(s));
            let r = tunnel_answer(Some(s));
            &&& r == Some(true) <==> word.len() == 0 || word == seq!['y'] || word == seq![
                'y',
                'e',
                's',
            ]
            &&& r == Some(false) <==> word == seq!['n'] || word == seq!['n', 'o']
            &&& tunnel_answer(None) == Some(true)
        }),
{
    reveal_strlit("y");
    reveal_strlit("yes");
    reveal_strlit("n");
    reveal_strlit("no");
    let word = ascii_lowercase(text::trimmed(s));
    assert("y"@ =~= seq!['y']);
    assert("yes"@ =~= seq!['y', 'e', 's']);
    assert("n"@ =~= seq!['n']);
    assert("no"@ =~= seq!['n', 'o']);
    assert(seq!['y'][0] == 'y' && seq!['n'][0] == 'n');
    assert(seq!['y', 'e', 's'][0] == 'y' && seq!['n', 'o'][0] == 'n');
}

} // verus!
