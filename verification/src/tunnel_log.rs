//! What the lines that `cloudflared` prints say, and what is logged for them.

use vstd::prelude::*;

use crate::text;

verus! {

#[derive(Clone, Copy, Debug, PartialEq, Eq, Structural)]
pub enum LogLevel {
    Info,
    Warn,
    Error,
}

/// Who a log entry is attributed to.
#[derive(Clone, Copy, Debug, PartialEq, Eq, Structural)]
pub enum LogSource {
    App,
    Cloudflared,
}

#[derive(Debug)]
pub struct LogEntry {
    pub source: LogSource,
    pub level: LogLevel,
    pub text: String,
}

/// A log entry with its text as characters.
pub struct Logged {
    pub source: LogSource,
    pub level: LogLevel,
    pub text: Seq<char>,
}

impl View for LogEntry {
    type V = Logged;

    open spec fn view(&self) -> Logged {
        Logged { source: self.source, level: self.level, text: self.text@ }
    }
}

/// The entries of a list, their texts as characters.
pub open spec fn view_entries(entries: Seq<LogEntry>) -> Seq<Logged> {
    entries.map_values(|e: LogEntry| e@)
}

pub open spec fn logged(source: LogSource, level: LogLevel, text: Seq<char>) -> Logged {
    Logged { source, level, text }
}

/// The level word of a `cloudflared` line and the message behind it. A level
/// word counts between blanks anywhere in the line, then at its start; a line
/// with none is informational as a whole.
pub open spec fn split_line(line: Seq<char>) -> (Seq<char>, Seq<char>) {
    if let Some(i) = text::position(line, " INF "@) {
        ("INF"@, text::trimmed(line.skip(i + 5)))
    } else if let Some(i) = text::position(line, " ERR "@) {
        ("ERR"@, text::trimmed(line.skip(i + 5)))
    } else if let Some(i) = text::position(line, " WRN "@) {
        ("WRN"@, text::trimmed(line.skip(i + 5)))
    } else if text::begins(line, "INF "@) {
        ("INF"@, text::trimmed(line.skip(4)))
    } else if text::begins(line, "ERR "@) {
        ("ERR"@, text::trimmed(line.skip(4)))
    } else if text::begins(line, "WRN "@) {
        ("WRN"@, text::trimmed(line.skip(4)))
    } else {
        ("INF"@, text::trimmed(line))
    }
}

/// The message of a `cloudflared` line.
pub open spec fn message_of(line: Seq<char>) -> Seq<char> {
    split_line(line).1
}

/// The line reports that the tunnel is up.
pub open spec fn reports_connected(line: Seq<char>) -> bool {
    text::has(message_of(line), "Registered tunnel connection"@)
}

/// The message behind the marker that ends at index `from` of `line`.
fn message_from(line: &str, from: usize) -> (r: &str)
    requires
        from <= line@.len(),
    ensures
        r@ == text::trimmed(line@.skip(from as int)),
{
    let n = line.unicode_len();
    let rest = line.substring_char(from, n);
    assert(rest@ =~= line@.skip(from as int));
    text::trim(rest)
}

/// Splits a `cloudflared` line into its level word and its message.
pub fn split_cloudflared_line(line: &str) -> (r: (&'static str, &str))
    ensures
        (r.0@, r.1@) == split_line(line@),
{
    let v = text::chars_of(line);
    let n: usize = v.len();
    proof {
        text::lemma_position(line@, " INF "@);
        text::lemma_position(line@, " ERR "@);
        text::lemma_position(line@, " WRN "@);
        reveal_strlit(" INF ");
        reveal_strlit(" ERR ");
        reveal_strlit(" WRN ");
        reveal_strlit("INF ");
        reveal_strlit("ERR ");
        reveal_strlit("WRN ");
    }
    if let Some(i) = text::find(&v, " INF ") {
        return ("INF", message_from(line, i + 5));
    }
    if let Some(i) = text::find(&v, " ERR ") {
        return ("ERR", message_from(line, i + 5));
    }
    if let Some(i) = text::find(&v, " WRN ") {
        return ("WRN", message_from(line, i + 5));
    }
    if text::starts_with(line, "INF ") {
        return ("INF", message_from(line, 4));
    }
    if text::starts_with(line, "ERR ") {
        return ("ERR", message_from(line, 4));
    }
    if text::starts_with(line, "WRN ") {
        return ("WRN", message_from(line, 4));
    }
    ("INF", text::trim(line))
}

/// What is kept between the lines of a `cloudflared` process: whether the
/// tunnel was reported up, and whether the hints on DNS were given.
#[derive(Clone, Copy, Debug, PartialEq, Eq, Structural)]
pub struct TunnelLog {
    pub connected: bool,
    pub dns_hint_printed: bool,
}

/// What is kept when another process is started: the tunnel is not up, and
/// hints that were given stay given.
pub open spec fn attempt_begun(log: TunnelLog) -> TunnelLog {
    TunnelLog { connected: false, dns_hint_printed: log.dns_hint_printed }
}

/// Takes note that another process is started.
pub fn begin_attempt(log: &mut TunnelLog)
    ensures
        !final(log).connected,
        final(log).dns_hint_printed == old(log).dns_hint_printed,
        *final(log) == attempt_begun(*old(log)),
{
    log.connected = false;
}

/// The hints that follow the first failure of the DNS resolver.
pub open spec fn dns_hints() -> Seq<Logged> {
    seq![
        logged(LogSource::App, LogLevel::Warn, "DNS 修复建议:"@),
        logged(LogSource::App, LogLevel::Warn, "1) 优先使用 --edge-ip-version 4"@),
        logged(
            LogSource::App,
            LogLevel::Warn,
            "2) 验证 DNS: Resolve-DnsName region1.v2.argotunnel.com"@,
        ),
        logged(
            LogSource::App,
            LogLevel::Warn,
            "3) 验证 7844: Test-NetConnection region1.v2.argotunnel.com -Port 7844"@,
        ),
        logged(
            LogSource::App,
            LogLevel::Warn,
            "4) 若 DNS 不可达，改为可达 DNS（如 8.8.8.8）并 ipconfig /flushdns"@,
        ),
    ]
}

/// The line reports that the local DNS resolver could not be set up.
pub open spec fn reports_dns_failure(line: Seq<char>) -> bool {
    &&& !text::has(line, "Cannot determine default origin certificate path"@)
    &&& text::has(line, "Failed to initialize DNS local resolver"@)
}

/// What is kept after `line`: a reported connection lasts, and the hints are
/// marked as given by the first DNS failure before one.
pub open spec fn log_after(log: TunnelLog, line: Seq<char>) -> TunnelLog {
    let connected = log.connected || reports_connected(line);
    TunnelLog {
        connected,
        dns_hint_printed: log.dns_hint_printed || (reports_dns_failure(line) && !connected),
    }
}

/// What is logged for `line`.
pub open spec fn log_entries(log: TunnelLog, line: Seq<char>) -> Seq<Logged> {
    let (kind, msg) = split_line(line);
    let connected = log.connected || reports_connected(line);
    let entry = |level: LogLevel, said: Seq<char>| logged(LogSource::Cloudflared, level, said);
    if text::has(line, "Cannot determine default origin certificate path"@) {
        seq![entry(LogLevel::Info, "quick tunnel without login (no cert.pem)"@)]
    } else if text::has(line, "Failed to initialize DNS local resolver"@) {
        if connected {
            seq![entry(LogLevel::Info, msg + " (ignored after tunnel connected)"@)]
        } else {
            let first = entry(
                LogLevel::Warn,
                msg + " (transient DNS issue; tunnel may still be connected)"@,
            );
            if log.dns_hint_printed {
                seq![first]
            } else {
                seq![first] + dns_hints()
            }
        }
    } else if kind == "ERR"@ {
        seq![entry(LogLevel::Error, msg)]
    } else if kind == "WRN"@ {
        seq![entry(LogLevel::Warn, msg)]
    } else {
        seq![entry(LogLevel::Info, msg)]
    }
}

fn push_entry(entries: &mut Vec<LogEntry>, source: LogSource, level: LogLevel, said: &str)
    ensures
        view_entries(final(entries)@) == view_entries(old(entries)@).push(
            logged(source, level, said@),
        ),
{
    entries.push(LogEntry { source, level, text: said.to_owned() });
    assert(view_entries(entries@) =~= view_entries(old(entries)@).push(
        logged(source, level, said@),
    ));
}

/// Takes note of a `cloudflared` line and gives what is to be logged for it.
pub fn log_cloudflared_line(log: &mut TunnelLog, line: &str) -> (r: Vec<LogEntry>)
    ensures
        *final(log) == log_after(*old(log), line@),
        view_entries(r@) == log_entries(*old(log), line@),
{
    let (kind, msg) = split_cloudflared_line(line);
    if text::contains(msg, "Registered tunnel connection") {
        log.connected = true;
    }
    let mut r: Vec<LogEntry> = Vec::new();
    assert(view_entries(r@) =~= Seq::<Logged>::empty());
    let cloudflared = LogSource::Cloudflared;
    if text::contains(line, "Cannot determine default origin certificate path") {
        push_entry(&mut r, cloudflared, LogLevel::Info, "quick tunnel without login (no cert.pem)");
    } else if text::contains(line, "Failed to initialize DNS local resolver") {
        if log.connected {
            let said = text::joined(msg, " (ignored after tunnel connected)");
            push_entry(&mut r, cloudflared, LogLevel::Info, said.as_str());
        } else {
            let said = text::joined(msg, " (transient DNS issue; tunnel may still be connected)");
            push_entry(&mut r, cloudflared, LogLevel::Warn, said.as_str());
            if !log.dns_hint_printed {
                log.dns_hint_printed = true;
                let app = LogSource::App;
                let warn = LogLevel::Warn;
                push_entry(&mut r, app, warn, "DNS 修复建议:");
                push_entry(&mut r, app, warn, "1) 优先使用 --edge-ip-version 4");
                push_entry(
                    &mut r,
                    app,
                    warn,
                    "2) 验证 DNS: Resolve-DnsName region1.v2.argotunnel.com",
                );
                push_entry(
                    &mut r,
                    app,
                    warn,
                    "3) 验证 7844: Test-NetConnection region1.v2.argotunnel.com -Port 7844",
                );
                push_entry(
                    &mut r,
                    app,
                    warn,
                    "4) 若 DNS 不可达，改为可达 DNS（如 8.8.8.8）并 ipconfig /flushdns",
                );
            }
        }
    } else if text::same_text(kind, "ERR") {
        push_entry(&mut r, cloudflared, LogLevel::Error, msg);
    } else if text::same_text(kind, "WRN") {
        push_entry(&mut r, cloudflared, LogLevel::Warn, msg);
    } else {
        push_entry(&mut r, cloudflared, LogLevel::Info, msg);
    }
    assert(view_entries(r@) =~= log_entries(*old(log), line@));
    r
}

/// What is kept after `lines`.
pub open spec fn log_after_all(log: TunnelLog, lines: Seq<Seq<char>>) -> TunnelLog
    decreases lines.len(),
{
    if lines.len() == 0 {
        log
    } else {
        log_after(log_after_all(log, lines.drop_last()), lines.last())
    }
}

/// A connection that was reported stays reported, and hints on DNS that were
/// given stay marked as given, whatever lines follow. After a connection
/// nothing changes any more.
pub proof fn lemma_log_only_grows(log: TunnelLog, lines: Seq<Seq<char>>)
    ensures
        log.connected ==> log_after_all(log, lines).connected,
        log.dns_hint_printed ==> log_after_all(log, lines).dns_hint_printed,
        log.connected ==> log_after_all(log, lines) == log,
    decreases lines.len(),
{
    if lines.len() > 0 {
        lemma_log_only_grows(log, lines.drop_last());
    }
}

/// Where the hints on DNS were given, no line brings them again.
pub proof fn lemma_hints_once(log: TunnelLog, line: Seq<char>)
    requires
        log.dns_hint_printed,
    ensures
        log_entries(log, line).len() == 1,
        log_entries(log, line)[0].source == LogSource::Cloudflared,
{
}

proof fn lemma_marker_position(ahead: Seq<char>, marker: Seq<char>, behind: Seq<char>)
    requires
        forall|i: int|
            0 <= i < ahead.len() ==> !text::matches_at(ahead + marker + behind, marker, i),
    ensures
        text::position(ahead + marker + behind, marker) == Some(ahead.len() as int),
        (ahead + marker + behind).skip((ahead.len() + marker.len()) as int) == behind,
{
    let line = ahead + marker + behind;
    text::lemma_has(line, marker, ahead, behind);
    text::lemma_position(line, marker);
    assert(line.skip((ahead.len() + marker.len()) as int) =~= behind);
}

/// A level word between spaces ends what stands ahead of the message, at its
/// first place in the line, whatever that is. `INF` counts ahead of `ERR`, and
/// `ERR` ahead of `WRN`. The message is what follows, without the white space at
/// its ends.
pub proof fn lemma_split_at_level(ahead: Seq<char>, level: Seq<char>, behind: Seq<char>)
    requires
        ({
            let line = ahead + (" "@ + level + " "@) + behind;
            &&& level == "INF"@ || level == "ERR"@ || level == "WRN"@
            &&& forall|i: int|
                0 <= i < ahead.len() ==> !text::matches_at(line, " "@ + level + " "@, i)
            &&& level != "INF"@ ==> !text::has(line, " INF "@)
            &&& level == "WRN"@ ==> !text::has(line, " ERR "@)
        }),
    ensures
        split_line(ahead + (" "@ + level + " "@) + behind) == (level, text::trimmed(behind)),
{
    lemma_level_words();
    let line = ahead + (" "@ + level + " "@) + behind;
    text::lemma_position(line, " INF "@);
    text::lemma_position(line, " ERR "@);
    lemma_marker_position(ahead, " "@ + level + " "@, behind);
}

proof fn lemma_level_words()
    ensures
        " "@ + "INF"@ + " "@ == " INF "@,
        " "@ + "ERR"@ + " "@ == " ERR "@,
        " "@ + "WRN"@ + " "@ == " WRN "@,
        "INF"@ + " "@ == "INF "@,
        "ERR"@ + " "@ == "ERR "@,
        "WRN"@ + " "@ == "WRN "@,
        " INF "@.len() == 5,
        " ERR "@.len() == 5,
        " WRN "@.len() == 5,
        "INF "@.len() == 4,
        "ERR "@.len() == 4,
        "WRN "@.len() == 4,
        "INF"@ != "ERR"@,
        "INF"@ != "WRN"@,
        "ERR"@ != "WRN"@,
        "INF "@ != "ERR "@,
        "INF "@ != "WRN "@,
        "ERR "@ != "WRN "@,
{
    reveal_strlit(" ");
    reveal_strlit("INF");
    reveal_strlit("ERR");
    reveal_strlit("WRN");
    reveal_strlit("INF ");
    reveal_strlit("ERR ");
    reveal_strlit("WRN ");
    reveal_strlit(" INF ");
    reveal_strlit(" ERR ");
    reveal_strlit(" WRN ");
    assert(" "@ + "INF"@ + " "@ =~= " INF "@);
    assert(" "@ + "ERR"@ + " "@ =~= " ERR "@);
    assert(" "@ + "WRN"@ + " "@ =~= " WRN "@);
    assert("INF"@ + " "@ =~= "INF "@);
    assert("ERR"@ + " "@ =~= "ERR "@);
    assert("WRN"@ + " "@ =~= "WRN "@);
    assert("INF"@[0] == 'I' && "ERR"@[0] == 'E' && "WRN"@[0] == 'W');
    assert("INF "@[0] == 'I' && "ERR "@[0] == 'E' && "WRN "@[0] == 'W');
}

/// In a line without a level word between spaces, a level word at its start
/// counts. In a line without any the whole line is the message, and it is not an
/// error.
pub proof fn lemma_split_at_start(line: Seq<char>, level: Seq<char>, behind: Seq<char>)
    requires
        !text::has(line, " INF "@),
        !text::has(line, " ERR "@),
        !text::has(line, " WRN "@),
    ensures
        (level == "INF"@ || level == "ERR"@ || level == "WRN"@) && line == level + " "@ + behind
            ==> split_line(line) == (level, text::trimmed(behind)),
        !text::begins(line, "INF "@) && !text::begins(line, "ERR "@) && !text::begins(line, "WRN "@)
            ==> split_line(line) == ("INF"@, text::trimmed(line)),
{
    lemma_level_words();
    text::lemma_position(line, " INF "@);
    text::lemma_position(line, " ERR "@);
    text::lemma_position(line, " WRN "@);
    if (level == "INF"@ || level == "ERR"@ || level == "WRN"@) && line == level + " "@ + behind {
        let word = level + " "@;
        text::lemma_has(line, word, Seq::empty(), behind);
        assert(line.skip(4) =~= behind);
        assert(line.subrange(0, 4) == word);
    }
}

/// A connection is known from the line on whose message says so, and nothing
/// else makes or ends it. The hints on DNS are marked as given from the first
/// line on that reports a DNS failure while no connection is known.
pub proof fn lemma_what_is_kept(log: TunnelLog, line: Seq<char>)
    ensures
        ({
            let next = log_after(log, line);
            let up = text::has(split_line(line).1, "Registered tunnel connection"@);
            let dns = text::has(line, "Failed to initialize DNS local resolver"@) && !text::has(
                line,
                "Cannot determine default origin certificate path"@,
            );
            &&& next.connected <==> log.connected || up
            &&& next.dns_hint_printed <==> log.dns_hint_printed || (dns && !next.connected)
        }),
{
}

/// An ordinary line is logged once, its message unchanged and at its level.
pub proof fn lemma_ordinary_line_is_logged(log: TunnelLog, line: Seq<char>)
    requires
        !text::has(line, "Cannot determine default origin certificate path"@),
        !text::has(line, "Failed to initialize DNS local resolver"@),
    ensures
        ({
            let e = log_entries(log, line);
            &&& e.len() == 1
            &&& e[0].source is Cloudflared
            &&& e[0].text == split_line(line).1
            &&& e[0].level is Error <==> split_line(line).0 == "ERR"@
            &&& e[0].level is Warn <==> split_line(line).0 == "WRN"@
        }),
{
    lemma_level_words();
}

/// A missing certificate is no error: whatever the level of the line, one line
/// of information is logged.
pub proof fn lemma_missing_certificate_is_no_error(log: TunnelLog, line: Seq<char>)
    requires
        text::has(line, "Cannot determine default origin certificate path"@),
    ensures
        log_entries(log, line) == seq![
            Logged {
                source: LogSource::Cloudflared,
                level: LogLevel::Info,
                text: "quick tunnel without login (no cert.pem)"@,
            },
        ],
{
}

/// A DNS failure is information once the tunnel is up, and a warning before. It
/// is never an error. With the first warning come five hints of the program,
/// which are all warnings, and with no other line.
pub proof fn lemma_dns_failure_is_logged(log: TunnelLog, line: Seq<char>)
    requires
        text::has(line, "Failed to initialize DNS local resolver"@),
        !text::has(line, "Cannot determine default origin certificate path"@),
    ensures
        ({
            let e = log_entries(log, line);
            let msg = split_line(line).1;
            let up = log.connected || text::has(msg, "Registered tunnel connection"@);
            &&& e.len() == (if up || log.dns_hint_printed {
                1int
            } else {
                6
            })
            &&& e[0].source is Cloudflared
            &&& up ==> e[0].level is Info && e[0].text == msg
                + " (ignored after tunnel connected)"@
            &&& !up ==> e[0].level is Warn && e[0].text == msg
                + " (transient DNS issue; tunnel may still be connected)"@
            &&& forall|i: int|
                1 <= i < e.len() ==> (#[trigger] e[i]).source is App && e[i].level is Warn
        }),
{
    let hints = dns_hints();
    assert(hints.len() == 5);
    assert forall|i: int| 0 <= i < 5 implies (#[trigger] hints[i]).source is App && hints[i].level
        is Warn by {
        assert(i == 0 || i == 1 || i == 2 || i == 3 || i == 4);
    }
}

/// Entries are seen one by one as what they hold.
pub proof fn lemma_views(list: Seq<LogEntry>)
    ensures
        view_entries(list).len() == list.len(),
        forall|i: int|
            0 <= i < list.len() ==> {
                &&& (#[trigger] view_entries(list)[i]).source == list[i].source
                &&& view_entries(list)[i].level == list[i].level
                &&& view_entries(list)[i].text == list[i].text@
            },
{
}

} // verus!
