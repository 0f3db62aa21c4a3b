//! Supervising the `cloudflared` process: how one run ended, and when it is
//! tried again.

use vstd::prelude::*;

use crate::decimal;
use crate::text;
use crate::tunnel_log;
use crate::tunnel_log::{LogEntry, LogLevel, LogSource, Logged, TunnelLog};
use crate::tunnel_url;

verus! {

/// How often a quick tunnel is tried.
pub const QUICK_TUNNEL_MAX_ATTEMPTS: usize = 3;

#[derive(Clone, Copy, Debug, PartialEq, Eq, Structural)]
pub enum TunnelLaunchErrorKind {
    CloudflareService,
    LocalProcess,
}

/// Why a tunnel did not come up.
#[derive(Debug)]
pub struct TunnelLaunchError {
    pub kind: TunnelLaunchErrorKind,
    pub detail: String,
}

/// A launch error with its detail as characters.
pub struct LaunchError {
    pub kind: TunnelLaunchErrorKind,
    pub detail: Seq<char>,
}

impl View for TunnelLaunchError {
    type V = LaunchError;

    open spec fn view(&self) -> LaunchError {
        LaunchError { kind: self.kind, detail: self.detail@ }
    }
}

pub open spec fn service_error(detail: Seq<char>) -> LaunchError {
    LaunchError { kind: TunnelLaunchErrorKind::CloudflareService, detail }
}

pub open spec fn local_error(detail: Seq<char>) -> LaunchError {
    LaunchError { kind: TunnelLaunchErrorKind::LocalProcess, detail }
}

impl TunnelLaunchError {
    pub fn cloudflare_service(detail: String) -> (r: Self)
        ensures
            r@ == service_error(detail@),
    {
        TunnelLaunchError { kind: TunnelLaunchErrorKind::CloudflareService, detail }
    }

    pub fn local(detail: String) -> (r: Self)
        ensures
            r@ == local_error(detail@),
    {
        TunnelLaunchError { kind: TunnelLaunchErrorKind::LocalProcess, detail }
    }

    pub fn is_cloudflare_service(&self) -> (r: bool)
        ensures
            r == (self.kind is CloudflareService),
    {
        match self.kind {
            TunnelLaunchErrorKind::CloudflareService => true,
            TunnelLaunchErrorKind::LocalProcess => false,
        }
    }

    /// The error as it is shown.
    pub fn message(&self) -> (r: &str)
        ensures
            r@ == self.detail@,
    {
        self.detail.as_str()
    }

    /// The error where the process could not be started.
    pub fn not_started(reason: &str) -> (r: Self)
        ensures
            r@ == local_error("failed to start cloudflared: "@ + reason@),
    {
        TunnelLaunchError::local(text::joined("failed to start cloudflared: ", reason))
    }

    /// The error where the end of the process could not be awaited.
    pub fn not_awaited(reason: &str) -> (r: Self)
        ensures
            r@ == local_error("failed while waiting for cloudflared: "@ + reason@),
    {
        TunnelLaunchError::local(text::joined("failed while waiting for cloudflared: ", reason))
    }
}

/// What the lines of one `cloudflared` run have shown so far.
#[derive(Debug)]
pub struct CloudflaredAttemptState {
    pub connected: bool,
    pub cloudflare_service_error: Option<String>,
    pub last_error: Option<String>,
}

/// What a run has shown, with its texts as characters.
#[verifier::ext_equal]
pub struct Attempt {
    pub connected: bool,
    pub service_error: Option<Seq<char>>,
    pub last_error: Option<Seq<char>>,
}

impl View for CloudflaredAttemptState {
    type V = Attempt;

    open spec fn view(&self) -> Attempt {
        Attempt {
            connected: self.connected,
            service_error: text::view_option(self.cloudflare_service_error),
            last_error: text::view_option(self.last_error),
        }
    }
}

impl Default for CloudflaredAttemptState {
    fn default() -> (r: Self)
        ensures
            r@ == (Attempt { connected: false, service_error: None, last_error: None }),
    {
        CloudflaredAttemptState {
            connected: false,
            cloudflare_service_error: None,
            last_error: None,
        }
    }
}

/// The error on the side of the tunnel service that a line reports.
pub open spec fn service_error_in(line: Seq<char>, msg: Seq<char>) -> Option<Seq<char>> {
    if text::has(line, "Error unmarshaling QuickTunnel response"@) || text::has(
        line,
        "failed to unmarshal quick Tunnel"@,
    ) {
        Some("TryCloudflare returned an invalid Quick Tunnel response: "@ + msg)
    } else {
        None
    }
}

/// The line is one at the error level.
pub open spec fn is_error_line(line: Seq<char>) -> bool {
    text::has(line, " ERR "@) || text::begins(line, "ERR "@)
}

/// What a run has shown after `line`: a connection lasts, the first error of
/// the service stays, and the last error line counts.
pub open spec fn recorded(state: Attempt, line: Seq<char>) -> Attempt {
    let msg = tunnel_log::message_of(line);
    Attempt {
        connected: state.connected || tunnel_log::reports_connected(line),
        service_error: match state.service_error {
            Some(e) => Some(e),
            None => service_error_in(line, msg),
        },
        last_error: if is_error_line(line) {
            Some(msg)
        } else {
            state.last_error
        },
    }
}

/// What a run has shown after `lines`.
pub open spec fn recorded_all(state: Attempt, lines: Seq<Seq<char>>) -> Attempt
    decreases lines.len(),
{
    if lines.len() == 0 {
        state
    } else {
        recorded(recorded_all(state, lines.drop_last()), lines.last())
    }
}

/// The error on the side of the tunnel service that `line` reports.
pub fn classify_cloudflare_quick_tunnel_error(line: &str, msg: &str) -> (r: Option<String>)
    ensures
        text::view_option(r) == service_error_in(line@, msg@),
{
    if text::contains(line, "Error unmarshaling QuickTunnel response") || text::contains(
        line,
        "failed to unmarshal quick Tunnel",
    ) {
        return Some(text::joined("TryCloudflare returned an invalid Quick Tunnel response: ", msg));
    }
    None
}

/// Takes note of what a `cloudflared` line says of its run.
pub fn record_cloudflared_attempt_line(state: &mut CloudflaredAttemptState, line: &str)
    ensures
        final(state)@ == recorded(old(state)@, line@),
{
    let (_, msg) = tunnel_log::split_cloudflared_line(line);
    if text::contains(msg, "Registered tunnel connection") {
        state.connected = true;
    }
    if let Some(detail) = classify_cloudflare_quick_tunnel_error(line, msg) {
        if state.cloudflare_service_error.is_none() {
            state.cloudflare_service_error = Some(detail);
        }
    }
    if text::contains(line, " ERR ") || text::starts_with(line, "ERR ") {
        state.last_error = Some(msg.to_owned());
    }
}

/// What is logged for one line: the line itself, and behind it the address of
/// the client page where the line holds the tunnel's address.
pub open spec fn line_entries(log: TunnelLog, line: Seq<char>) -> Seq<Logged> {
    let entries = tunnel_log::log_entries(log, line);
    match tunnel_url::tunnel_url(line) {
        Some(url) => entries.push(
            tunnel_log::logged(
                LogSource::Cloudflared,
                LogLevel::Info,
                "client URL: "@ + url + "/client"@,
            ),
        ),
        None => entries,
    }
}

/// What is logged for `lines`, one after the other.
pub open spec fn all_entries(log: TunnelLog, lines: Seq<Seq<char>>) -> Seq<Logged>
    decreases lines.len(),
{
    if lines.len() == 0 {
        Seq::empty()
    } else {
        all_entries(log, lines.drop_last()) + line_entries(
            tunnel_log::log_after_all(log, lines.drop_last()),
            lines.last(),
        )
    }
}

/// Takes note of the lines that `cloudflared` printed and gives what is to be
/// logged for them.
pub fn pump_cloudflared_output(
    lines: &Vec<String>,
    log: &mut TunnelLog,
    state: &mut CloudflaredAttemptState,
) -> (r: Vec<LogEntry>)
    ensures
        *final(log) == tunnel_log::log_after_all(*old(log), text::view_list(lines@)),
        final(state)@ == recorded_all(old(state)@, text::view_list(lines@)),
        tunnel_log::view_entries(r@) == all_entries(*old(log), text::view_list(lines@)),
{
    let ghost all = text::view_list(lines@);
    let mut r: Vec<LogEntry> = Vec::new();
    let mut i: usize = 0;
    assert(tunnel_log::view_entries(r@) =~= Seq::<Logged>::empty());
    assert(all.take(0) =~= Seq::<Seq<char>>::empty());
    while i < lines.len()
        invariant
            i <= lines.len(),
            all == text::view_list(lines@),
            *log == tunnel_log::log_after_all(*old(log), all.take(i as int)),
            state@ == recorded_all(old(state)@, all.take(i as int)),
            tunnel_log::view_entries(r@) == all_entries(*old(log), all.take(i as int)),
        decreases lines.len() - i,
    {
        let line = lines[i].as_str();
        assert(line@ == all[i as int]);
        assert(all.take(i + 1).drop_last() =~= all.take(i as int));
        let ghost before = *log;
        let ghost said = r@;
        let mut entries = tunnel_log::log_cloudflared_line(log, line);
        if let Some(url) = tunnel_url::extract_trycloudflare_url(line) {
            let mut note = text::joined("client URL: ", url.as_str());
            note.append("/client");
            let ghost known = entries@;
            entries.push(
                LogEntry { source: LogSource::Cloudflared, level: LogLevel::Info, text: note },
            );
            assert(tunnel_log::view_entries(entries@) =~= tunnel_log::view_entries(known).push(
                entries@.last()@,
            ));
        }
        assert(tunnel_log::view_entries(entries@) == line_entries(before, line@));
        let ghost more = entries@;
        r.append(&mut entries);
        assert(tunnel_log::view_entries(r@) =~= tunnel_log::view_entries(said)
            + tunnel_log::view_entries(more));
        record_cloudflared_attempt_line(state, line);
        i = i + 1;
    }
    assert(all.take(i as int) =~= all);
    r
}

/// How a process ended: whether with success, and its exit code where it was
/// not ended by a signal.
#[derive(Clone, Copy, Debug, PartialEq, Eq, Structural)]
pub struct ProcessExit {
    pub success: bool,
    pub code: Option<i32>,
}

pub open spec fn exit_text(code: Option<i32>) -> Seq<char> {
    match code {
        Some(code) => "exit code "@ + decimal::decimal(code as int),
        None => "signal termination"@,
    }
}

/// An exit status in words.
pub fn describe_exit_status(code: Option<i32>) -> (r: String)
    ensures
        r@ == exit_text(code),
{
    match code {
        Some(code) => {
            let mut r = "exit code ".to_owned();
            decimal::append_i32(&mut r, code);
            r
        },
        None => "signal termination".to_owned(),
    }
}

/// How a run ended that showed `state`: well, with a warning where a connected
/// process failed later, or with an error. A connection outweighs every error,
/// and an error of the service outweighs one of the process.
pub open spec fn run_result(state: Attempt, exit: ProcessExit) -> Result<
    Option<Seq<char>>,
    LaunchError,
> {
    if state.connected {
        if exit.success {
            Ok(None)
        } else {
            Ok(Some("cloudflared exited after tunnel had connected: "@ + exit_text(exit.code)))
        }
    } else if let Some(detail) = state.service_error {
        Err(service_error(detail))
    } else if let Some(detail) = state.last_error {
        Err(local_error("cloudflared exited before tunnel connected: "@ + detail))
    } else {
        Err(
            local_error(
                "cloudflared exited before tunnel connected with "@ + exit_text(exit.code),
            ),
        )
    }
}

/// How a run ended, from what its lines showed and how the process exited.
pub fn cloudflared_run_result(state: CloudflaredAttemptState, exit: ProcessExit) -> (r: Result<
    Option<String>,
    TunnelLaunchError,
>)
    ensures
        match r {
            Ok(warning) => run_result(state@, exit) == Ok::<Option<Seq<char>>, LaunchError>(
                text::view_option(warning),
            ),
            Err(e) => run_result(state@, exit) == Err::<Option<Seq<char>>, LaunchError>(e@),
        },
{
    if state.connected {
        if !exit.success {
            let said = describe_exit_status(exit.code);
            return Ok(
                Some(text::joined("cloudflared exited after tunnel had connected: ", said.as_str())),
            );
        }
        return Ok(None);
    }
    if let Some(detail) = state.cloudflare_service_error {
        return Err(TunnelLaunchError::cloudflare_service(detail));
    }
    if let Some(detail) = state.last_error {
        return Err(
            TunnelLaunchError::local(
                text::joined("cloudflared exited before tunnel connected: ", detail.as_str()),
            ),
        );
    }
    let said = describe_exit_status(exit.code);
    Err(
        TunnelLaunchError::local(
            text::joined("cloudflared exited before tunnel connected with ", said.as_str()),
        ),
    )
}

/// The arguments that `cloudflared` is started with.
pub open spec fn launch_args(
    port: u16,
    edge_ip_version: Seq<char>,
    origin_cert: Option<Seq<char>>,
) -> Seq<Seq<char>> {
    let args = seq![
        "tunnel"@,
        "--url"@,
        "http://127.0.0.1:"@ + decimal::decimal(port as int),
        "--protocol"@,
        "http2"@,
        "--edge-ip-version"@,
        edge_ip_version,
    ];
    match origin_cert {
        Some(path) => args + seq!["--origincert"@, path],
        None => args,
    }
}

/// The arguments that `cloudflared` is started with.
pub fn cloudflared_args(port: u16, edge_ip_version: &str, origin_cert: Option<String>) -> (r: Vec<
    String,
>)
    ensures
        text::view_list(r@) == launch_args(
            port,
            edge_ip_version@,
            text::view_option(origin_cert),
        ),
{
    let ghost cert = text::view_option(origin_cert);
    let mut url = "http://127.0.0.1:".to_owned();
    decimal::append_u64(&mut url, port as u64);
    let mut r: Vec<String> = Vec::new();
    r.push("tunnel".to_owned());
    r.push("--url".to_owned());
    r.push(url);
    r.push("--protocol".to_owned());
    r.push("http2".to_owned());
    r.push("--edge-ip-version".to_owned());
    r.push(edge_ip_version.to_owned());
    if let Some(path) = origin_cert {
        r.push("--origincert".to_owned());
        r.push(path);
    }
    assert(text::view_list(r@) =~= launch_args(port, edge_ip_version@, cert));
    r
}

/// The pause behind a failed attempt, in seconds.
pub open spec fn retry_delay(attempt: int) -> int {
    if attempt <= 1 {
        2
    } else {
        5
    }
}

/// The pause behind the failed attempt number `attempt`, in seconds.
pub fn quick_tunnel_retry_delay_secs(attempt: usize) -> (r: u64)
    ensures
        r == retry_delay(attempt as int),
{
    if attempt <= 1 {
        2
    } else {
        5
    }
}

/// What is said when the service failed in every attempt.
pub open spec fn give_up_text(detail: Seq<char>) -> Seq<char> {
    "Cloudflare Quick Tunnel 连续 "@ + decimal::decimal(QUICK_TUNNEL_MAX_ATTEMPTS as int)
        + " 次启动失败："@ + detail
        + "。这是 Cloudflare TryCloudflare 服务端问题，不是 liver 代码问题。请稍后重试，或改用登录后的 named tunnel。"@
}

/// What is said when the service failed in every attempt.
pub fn format_cloudflare_quick_tunnel_panic(err: &TunnelLaunchError) -> (r: String)
    ensures
        r@ == give_up_text(err.detail@),
{
    let mut r = "Cloudflare Quick Tunnel 连续 ".to_owned();
    decimal::append_u64(&mut r, QUICK_TUNNEL_MAX_ATTEMPTS as u64);
    r.append(" 次启动失败：");
    r.append(err.message());
    r.append(
        "。这是 Cloudflare TryCloudflare 服务端问题，不是 liver 代码问题。请稍后重试，或改用登录后的 named tunnel。",
    );
    r
}

/// What follows an attempt.
#[derive(Debug)]
pub enum TunnelStep {
    /// The tunnel was up; there is nothing left to do.
    Done,
    /// Try again after a pause.
    Retry { delay_secs: u64 },
    /// The service failed in every attempt: abort with this message.
    GiveUp { message: String },
    /// The process failed: report this error and stop.
    Stop { message: String },
}

/// What follows an attempt, with its texts as characters.
pub enum NextStep {
    Done,
    Retry { delay_secs: int },
    GiveUp { message: Seq<char> },
    Stop { message: Seq<char> },
}

impl View for TunnelStep {
    type V = NextStep;

    open spec fn view(&self) -> NextStep {
        match *self {
            TunnelStep::Done => NextStep::Done,
            TunnelStep::Retry { delay_secs } => NextStep::Retry { delay_secs: delay_secs as int },
            TunnelStep::GiveUp { message } => NextStep::GiveUp { message: message@ },
            TunnelStep::Stop { message } => NextStep::Stop { message: message@ },
        }
    }
}

/// What follows the attempt number `attempt`, counted from one, that failed
/// with `error` or did not fail.
pub open spec fn next_step(attempt: int, error: Option<LaunchError>) -> NextStep {
    match error {
        None => NextStep::Done,
        Some(e) => if e.kind is LocalProcess {
            NextStep::Stop { message: e.detail }
        } else if attempt < QUICK_TUNNEL_MAX_ATTEMPTS {
            NextStep::Retry { delay_secs: retry_delay(attempt) }
        } else {
            NextStep::GiveUp { message: give_up_text(e.detail) }
        },
    }
}

/// Decides what follows the attempt number `attempt`, counted from one.
pub fn after_attempt(attempt: usize, error: Option<TunnelLaunchError>) -> (r: TunnelStep)
    ensures
        r@ == next_step(
            attempt as int,
            match error {
                Some(e) => Some(e@),
                None => None,
            },
        ),
{
    match error {
        None => TunnelStep::Done,
        Some(err) => {
            if err.is_cloudflare_service() {
                if attempt < QUICK_TUNNEL_MAX_ATTEMPTS {
                    TunnelStep::Retry { delay_secs: quick_tunnel_retry_delay_secs(attempt) }
                } else {
                    TunnelStep::GiveUp { message: format_cloudflare_quick_tunnel_panic(&err) }
                }
            } else {
                TunnelStep::Stop { message: err.detail }
            }
        },
    }
}

/// The number of the last attempt, where attempt number `n` fails with
/// `errors(n)` or does not fail, and number `attempt` is made next.
pub open spec fn last_attempt(errors: spec_fn(int) -> Option<LaunchError>, attempt: int) -> int
    decreases QUICK_TUNNEL_MAX_ATTEMPTS - attempt,
{
    if next_step(attempt, errors(attempt)) is Retry {
        last_attempt(errors, attempt + 1)
    } else {
        attempt
    }
}

/// The seconds that are waited in between.
pub open spec fn total_delay(errors: spec_fn(int) -> Option<LaunchError>, attempt: int) -> int
    decreases QUICK_TUNNEL_MAX_ATTEMPTS - attempt,
{
    match next_step(attempt, errors(attempt)) {
        NextStep::Retry { delay_secs } => delay_secs + total_delay(errors, attempt + 1),
        _ => 0,
    }
}

proof fn lemma_attempts_from(errors: spec_fn(int) -> Option<LaunchError>, attempt: int)
    requires
        1 <= attempt <= QUICK_TUNNEL_MAX_ATTEMPTS,
    ensures
        attempt <= last_attempt(errors, attempt) <= QUICK_TUNNEL_MAX_ATTEMPTS,
        forall|n: int|
            attempt <= n < last_attempt(errors, attempt) ==> (#[trigger] errors(n) matches Some(e)
                && e.kind is CloudflareService),
        !(next_step(
            last_attempt(errors, attempt),
            errors(last_attempt(errors, attempt)),
        ) is Retry),
    decreases QUICK_TUNNEL_MAX_ATTEMPTS - attempt,
{
    if next_step(attempt, errors(attempt)) is Retry {
        lemma_attempts_from(errors, attempt + 1);
    }
}

/// However the attempts end, at most three are made, every attempt but the last
/// one failed on the side of the service, and the waits in between sum up to at
/// most seven seconds. The last attempt gives up only after three failures of
/// the service.
pub proof fn lemma_attempts_bounded(errors: spec_fn(int) -> Option<LaunchError>)
    ensures
        ({
            let last = last_attempt(errors, 1);
            &&& 1 <= last <= 3
            &&& forall|n: int|
                1 <= n < last ==> (#[trigger] errors(n) matches Some(e)
                    && e.kind is CloudflareService)
            &&& total_delay(errors, 1) <= 7
            &&& next_step(last, errors(last)) is GiveUp ==> last == 3
            &&& !(next_step(last, errors(last)) is Retry)
        }),
{
    lemma_attempts_from(errors, 1);
    reveal_with_fuel(total_delay, 4);
}

/// A run that reported a connection never counts as failed, so it is never
/// repeated, whatever else its lines and its exit say.
pub proof fn lemma_connected_run_is_final(
    state: Attempt,
    lines: Seq<Seq<char>>,
    exit: ProcessExit,
    i: int,
)
    requires
        0 <= i < lines.len(),
        tunnel_log::reports_connected(lines[i]),
    ensures
        recorded_all(state, lines).connected,
        run_result(recorded_all(state, lines), exit) is Ok,
    decreases lines.len(),
{
    if i < lines.len() - 1 {
        lemma_connected_run_is_final(state, lines.drop_last(), exit, i);
    }
}

/// The first error of the service that a run reports is the one that is kept.
pub proof fn lemma_first_service_error_stays(
    state: Attempt,
    lines: Seq<Seq<char>>,
    detail: Seq<char>,
)
    requires
        state.service_error == Some(detail),
    ensures
        recorded_all(state, lines).service_error == Some(detail),
    decreases lines.len(),
{
    if lines.len() > 0 {
        lemma_first_service_error_stays(state, lines.drop_last(), detail);
    }
}

/// What a process prints may be taken in pieces: one piece after the other comes
/// to the same as all of it at once.
pub proof fn lemma_output_in_pieces(
    log: TunnelLog,
    state: Attempt,
    first: Seq<Seq<char>>,
    more: Seq<Seq<char>>,
)
    ensures
        tunnel_log::log_after_all(log, first + more) == tunnel_log::log_after_all(
            tunnel_log::log_after_all(log, first),
            more,
        ),
        recorded_all(state, first + more) == recorded_all(recorded_all(state, first), more),
        all_entries(log, first + more) == all_entries(log, first) + all_entries(
            tunnel_log::log_after_all(log, first),
            more,
        ),
    decreases more.len(),
{
    let all = first + more;
    if more.len() == 0 {
        assert(all =~= first);
        assert(all_entries(log, first) + Seq::empty() =~= all_entries(log, first));
    } else {
        assert(all.drop_last() =~= first + more.drop_last());
        assert(all.last() == more.last());
        lemma_output_in_pieces(log, state, first, more.drop_last());
        assert(all_entries(log, all) =~= all_entries(log, first) + all_entries(
            tunnel_log::log_after_all(log, first),
            more,
        ));
    }
}

/// The entry is one of the program itself: these are the hints on DNS.
pub open spec fn from_app() -> spec_fn(Logged) -> bool {
    |e: Logged| e.source is App
}

proof fn lemma_no_app_entry(s: Seq<Logged>)
    requires
        forall|i: int| 0 <= i < s.len() ==> !((#[trigger] s[i]).source is App),
    ensures
        s.filter(from_app()).len() == 0,
    decreases s.len(),
{
    reveal(Seq::filter);
    if s.len() > 0 {
        assert(!(s.last().source is App));
        lemma_no_app_entry(s.drop_last());
    }
}

proof fn lemma_line_hints(log: TunnelLog, line: Seq<char>)
    ensures
        line_entries(log, line).filter(from_app()).len() <= 5,
        tunnel_log::log_after(log, line).dns_hint_printed == log.dns_hint_printed ==> line_entries(
            log,
            line,
        ).filter(from_app()).len() == 0,
{
    let entries = line_entries(log, line);
    let said = tunnel_log::log_entries(log, line);
    if !log.dns_hint_printed && tunnel_log::log_after(log, line).dns_hint_printed {
        let first = said.take(1);
        let hints = tunnel_log::dns_hints();
        let behind = entries.skip(6);
        assert(entries =~= first + hints + behind);
        lemma_no_app_entry(first);
        lemma_no_app_entry(behind);
        Seq::filter_distributes_over_add(first, hints, from_app());
        Seq::filter_distributes_over_add(first + hints, behind, from_app());
        hints.lemma_filter_len(from_app());
    } else {
        lemma_no_app_entry(entries);
    }
}

/// Whatever a process prints, the hints on DNS are given at most once, and not
/// at all where they were given before.
pub proof fn lemma_dns_hints_at_most_once(log: TunnelLog, lines: Seq<Seq<char>>)
    ensures
        all_entries(log, lines).filter(from_app()).len() <= tunnel_log::dns_hints().len(),
        log.dns_hint_printed || !tunnel_log::log_after_all(log, lines).dns_hint_printed
            ==> all_entries(log, lines).filter(from_app()).len() == 0,
    decreases lines.len(),
{
    if lines.len() == 0 {
        lemma_no_app_entry(all_entries(log, lines));
    } else {
        let rest = lines.drop_last();
        let between = tunnel_log::log_after_all(log, rest);
        lemma_dns_hints_at_most_once(log, rest);
        lemma_line_hints(between, lines.last());
        Seq::filter_distributes_over_add(
            all_entries(log, rest),
            line_entries(between, lines.last()),
            from_app(),
        );
        tunnel_log::lemma_log_only_grows(log, rest);
    }
}

/// What is kept after several attempts, each with the lines that it printed.
pub open spec fn log_after_attempts(log: TunnelLog, attempts: Seq<Seq<Seq<char>>>) -> TunnelLog
    decreases attempts.len(),
{
    if attempts.len() == 0 {
        log
    } else {
        let between = log_after_attempts(log, attempts.drop_last());
        tunnel_log::log_after_all(tunnel_log::attempt_begun(between), attempts.last())
    }
}

/// What is logged over several attempts, one after the other.
pub open spec fn entries_of_attempts(log: TunnelLog, attempts: Seq<Seq<Seq<char>>>) -> Seq<Logged>
    decreases attempts.len(),
{
    if attempts.len() == 0 {
        Seq::empty()
    } else {
        let between = log_after_attempts(log, attempts.drop_last());
        entries_of_attempts(log, attempts.drop_last()) + all_entries(
            tunnel_log::attempt_begun(between),
            attempts.last(),
        )
    }
}

/// However many attempts are made and whatever they print, the hints on DNS are
/// given at most once, and not at all where they were given before.
pub proof fn lemma_dns_hints_at_most_once_over_attempts(
    log: TunnelLog,
    attempts: Seq<Seq<Seq<char>>>,
)
    ensures
        entries_of_attempts(log, attempts).filter(from_app()).len() <= tunnel_log::dns_hints().len(),
        log.dns_hint_printed || !log_after_attempts(log, attempts).dns_hint_printed
            ==> entries_of_attempts(log, attempts).filter(from_app()).len() == 0,
        log.dns_hint_printed ==> log_after_attempts(log, attempts).dns_hint_printed,
    decreases attempts.len(),
{
    if attempts.len() == 0 {
        lemma_no_app_entry(entries_of_attempts(log, attempts));
    } else {
        let rest = attempts.drop_last();
        let begun = tunnel_log::attempt_begun(log_after_attempts(log, rest));
        lemma_dns_hints_at_most_once_over_attempts(log, rest);
        lemma_dns_hints_at_most_once(begun, attempts.last());
        tunnel_log::lemma_log_only_grows(begun, attempts.last());
        Seq::filter_distributes_over_add(
            entries_of_attempts(log, rest),
            all_entries(begun, attempts.last()),
            from_app(),
        );
    }
}

/// Each attempt starts without a connection: a DNS failure ahead of a connection
/// of its own is a warning, whatever the attempts before it printed.
pub proof fn lemma_attempts_start_unconnected(
    log: TunnelLog,
    attempts: Seq<Seq<Seq<char>>>,
    line: Seq<char>,
)
    requires
        tunnel_log::reports_dns_failure(line),
        !tunnel_log::reports_connected(line),
    ensures
        ({
            let begun = tunnel_log::attempt_begun(log_after_attempts(log, attempts));
            tunnel_log::log_entries(begun, line)[0] == tunnel_log::logged(
                LogSource::Cloudflared,
                LogLevel::Warn,
                tunnel_log::message_of(line)
                    + " (transient DNS issue; tunnel may still be connected)"@,
            )
        }),
{
}

/// The line holds one of the two phrases by which `cloudflared` says that the
/// service has answered wrongly.
pub open spec fn blames_service(line: Seq<char>) -> bool {
    text::has(line, "Error unmarshaling QuickTunnel response"@) || text::has(
        line,
        "failed to unmarshal quick Tunnel"@,
    )
}

/// Before any line, a run has shown nothing.
pub open spec fn nothing_shown() -> Attempt {
    Attempt { connected: false, service_error: None, last_error: None }
}

proof fn lemma_first_blame_from(lines: Seq<Seq<char>>, k: int)
    requires
        0 <= k < lines.len(),
        blames_service(lines[k]),
        forall|j: int| 0 <= j < k ==> !blames_service(#[trigger] lines[j]),
    ensures
        recorded_all(nothing_shown(), lines).service_error == Some(
            "TryCloudflare returned an invalid Quick Tunnel response: "@
                + tunnel_log::split_line(lines[k]).1,
        ),
    decreases lines.len(),
{
    let rest = lines.drop_last();
    if k < lines.len() - 1 {
        assert forall|j: int| 0 <= j < k implies !blames_service(#[trigger] rest[j]) by {
            assert(rest[j] == lines[j]);
        }
        lemma_first_blame_from(rest, k);
    } else {
        lemma_no_blame(rest);
        assert(lines.last() == lines[k]);
    }
}

proof fn lemma_no_blame(lines: Seq<Seq<char>>)
    requires
        forall|j: int| 0 <= j < lines.len() ==> !blames_service(#[trigger] lines[j]),
    ensures
        recorded_all(nothing_shown(), lines).service_error is None,
    decreases lines.len(),
{
    if lines.len() > 0 {
        let rest = lines.drop_last();
        assert forall|j: int| 0 <= j < rest.len() implies !blames_service(#[trigger] rest[j]) by {
            assert(rest[j] == lines[j]);
        }
        lemma_no_blame(rest);
        assert(!blames_service(lines.last()));
    }
}

proof fn lemma_not_connected(lines: Seq<Seq<char>>)
    requires
        forall|j: int|
            0 <= j < lines.len() ==> !text::has(
                tunnel_log::split_line(#[trigger] lines[j]).1,
                "Registered tunnel connection"@,
            ),
    ensures
        !recorded_all(nothing_shown(), lines).connected,
    decreases lines.len(),
{
    if lines.len() > 0 {
        let rest = lines.drop_last();
        assert forall|j: int| 0 <= j < rest.len() implies !text::has(
            tunnel_log::split_line(#[trigger] rest[j]).1,
            "Registered tunnel connection"@,
        ) by {
            assert(rest[j] == lines[j]);
        }
        lemma_not_connected(rest);
        let last = lines[lines.len() - 1];
        assert(lines.last() == last);
        assert(!text::has(tunnel_log::split_line(last).1, "Registered tunnel connection"@));
    }
}

/// A run with a line that blames the service, at whatever level or without one,
/// and with no line that reports a connection, has failed on the side of the
/// service, however the process exits. The first such line says why. The run is
/// tried again after 2 seconds the first time and after 5 the second time, and
/// given up after the third time.
pub proof fn lemma_blamed_service_is_tried_again(
    lines: Seq<Seq<char>>,
    k: int,
    exit: ProcessExit,
    attempt: int,
)
    requires
        0 <= k < lines.len(),
        text::has(lines[k], "Error unmarshaling QuickTunnel response"@) || text::has(
            lines[k],
            "failed to unmarshal quick Tunnel"@,
        ),
        forall|j: int|
            0 <= j < k ==> !text::has(
                #[trigger] lines[j],
                "Error unmarshaling QuickTunnel response"@,
            ) && !text::has(lines[j], "failed to unmarshal quick Tunnel"@),
        forall|j: int|
            0 <= j < lines.len() ==> !text::has(
                tunnel_log::split_line(#[trigger] lines[j]).1,
                "Registered tunnel connection"@,
            ),
        1 <= attempt,
    ensures
        ({
            let why = "TryCloudflare returned an invalid Quick Tunnel response: "@
                + tunnel_log::split_line(lines[k]).1;
            let shown = recorded_all(
                Attempt { connected: false, service_error: None, last_error: None },
                lines,
            );
            &&& shown.service_error == Some(why)
            &&& run_result(shown, exit) matches Err(e) && {
                &&& e.kind is CloudflareService
                &&& e.detail == why
                &&& attempt == 1 ==> next_step(attempt, Some(e)) == (NextStep::Retry {
                    delay_secs: 2,
                })
                &&& attempt == 2 ==> next_step(attempt, Some(e)) == (NextStep::Retry {
                    delay_secs: 5,
                })
                &&& attempt >= 3 ==> next_step(attempt, Some(e)) is GiveUp
            }
        }),
{
    lemma_first_blame_from(lines, k);
    lemma_not_connected(lines);
}

/// A run that no line blames the service for does not count as a failure of the
/// service, and is not tried again.
pub proof fn lemma_unblamed_service_is_not_tried_again(
    lines: Seq<Seq<char>>,
    exit: ProcessExit,
    attempt: int,
)
    requires
        forall|j: int|
            0 <= j < lines.len() ==> !text::has(
                #[trigger] lines[j],
                "Error unmarshaling QuickTunnel response"@,
            ) && !text::has(lines[j], "failed to unmarshal quick Tunnel"@),
    ensures
        ({
            let shown = recorded_all(
                Attempt { connected: false, service_error: None, last_error: None },
                lines,
            );
            &&& shown.service_error is None
            &&& run_result(shown, exit) matches Err(e) ==> e.kind is LocalProcess && next_step(
                attempt,
                Some(e),
            ) == (NextStep::Stop { message: e.detail })
        }),
{
    lemma_no_blame(lines);
}

/// A run is known to be connected exactly where some line's message reports it.
pub proof fn lemma_connected_runs(lines: Seq<Seq<char>>)
    ensures
        recorded_all(
            Attempt { connected: false, service_error: None, last_error: None },
            lines,
        ).connected <==> exists|j: int|
            0 <= j < lines.len() && text::has(
                tunnel_log::split_line(#[trigger] lines[j]).1,
                "Registered tunnel connection"@,
            ),
{
    if exists|j: int|
        0 <= j < lines.len() && text::has(
            tunnel_log::split_line(#[trigger] lines[j]).1,
            "Registered tunnel connection"@,
        ) {
        let j = choose|j: int|
            0 <= j < lines.len() && text::has(
                tunnel_log::split_line(#[trigger] lines[j]).1,
                "Registered tunnel connection"@,
            );
        lemma_connected_run_is_final(
            nothing_shown(),
            lines,
            ProcessExit { success: true, code: None },
            j,
        );
    } else {
        lemma_not_connected(lines);
    }
}

/// The error of a run is the message of its last line at the error level, which
/// is one with that level word between spaces or at its start. Without such a
/// line there is none.
pub proof fn lemma_last_error_line_counts(lines: Seq<Seq<char>>, state: Attempt, k: int)
    ensures
        0 <= k < lines.len() && (text::has(lines[k], " ERR "@) || text::begins(lines[k], "ERR "@))
            && (forall|j: int|
            k < j < lines.len() ==> !text::has(#[trigger] lines[j], " ERR "@) && !text::begins(
                lines[j],
                "ERR "@,
            )) ==> recorded_all(state, lines).last_error == Some(
            tunnel_log::split_line(lines[k]).1,
        ),
        (forall|j: int|
            0 <= j < lines.len() ==> !text::has(#[trigger] lines[j], " ERR "@) && !text::begins(
                lines[j],
                "ERR "@,
            )) ==> recorded_all(state, lines).last_error == state.last_error,
    decreases lines.len(),
{
    if lines.len() > 0 {
        let rest = lines.drop_last();
        lemma_last_error_line_counts(rest, state, k);
        let n = lines.len() - 1;
        assert(lines.last() == lines[n]);
        assert(forall|j: int| 0 <= j < n ==> #[trigger] rest[j] == lines[j]);
    }
}

/// A connected run has not failed, and leaves a warning exactly where the
/// process did not exit with success. A run that is not connected has failed,
/// also where the process exits with success: on the side of the service where
/// an error of the service is known, else with the last error of the process,
/// else with how the process exited.
pub proof fn lemma_how_runs_end(state: Attempt, exit: ProcessExit)
    ensures
        run_result(state, exit) is Ok <==> state.connected,
        state.connected && exit.success ==> run_result(state, exit) == Ok::<
            Option<Seq<char>>,
            LaunchError,
        >(None),
        state.connected && !exit.success ==> run_result(state, exit) == Ok::<
            Option<Seq<char>>,
            LaunchError,
        >(Some("cloudflared exited after tunnel had connected: "@ + exit_text(exit.code))),
        !state.connected ==> (run_result(state, exit) matches Err(e) && {
            &&& e.kind is CloudflareService <==> state.service_error is Some
            &&& state.service_error is Some ==> Some(e.detail) == state.service_error
            &&& state.service_error is None && state.last_error is Some ==> e.detail
                == "cloudflared exited before tunnel connected: "@ + state.last_error.unwrap()
            &&& state.service_error is None && state.last_error is None ==> e.detail
                == "cloudflared exited before tunnel connected with "@ + exit_text(exit.code)
        }),
{
}

/// An exit is told by its code, and by being a signal exactly where there is
/// none.
pub proof fn lemma_exit_text(code: i32)
    ensures
        exit_text(Some(code)) == "exit code "@ + decimal::decimal(code as int),
        exit_text(None) == "signal termination"@,
{
}

/// What follows an attempt: nothing where it did not fail, the end where it
/// failed here, and where the service failed another attempt, with the pauses 2
/// and 5 seconds, up to the third one. The messages name the error.
pub proof fn lemma_what_follows_an_attempt(attempt: int, e: LaunchError)
    requires
        1 <= attempt,
    ensures
        next_step(attempt, None) is Done,
        e.kind is LocalProcess ==> next_step(attempt, Some(e)) == (NextStep::Stop {
            message: e.detail,
        }),
        e.kind is CloudflareService ==> {
            &&& next_step(attempt, Some(e)) is Retry <==> attempt < 3
            &&& attempt >= 3 ==> next_step(attempt, Some(e)) is GiveUp
            &&& next_step(attempt, Some(e)) matches NextStep::GiveUp { message } ==> text::has(
                message,
                e.detail,
            ) && message == "Cloudflare Quick Tunnel 连续 "@ + decimal::decimal(3)
                + " 次启动失败："@ + e.detail
                + "。这是 Cloudflare TryCloudflare 服务端问题，不是 liver 代码问题。请稍后重试，或改用登录后的 named tunnel。"@
            &&& attempt == 1 ==> next_step(attempt, Some(e)) == (NextStep::Retry { delay_secs: 2 })
            &&& attempt == 2 ==> next_step(attempt, Some(e)) == (NextStep::Retry { delay_secs: 5 })
        },
{
    if attempt >= 3 && e.kind is CloudflareService {
        let ahead = "Cloudflare Quick Tunnel 连续 "@ + decimal::decimal(
            QUICK_TUNNEL_MAX_ATTEMPTS as int,
        ) + " 次启动失败："@;
        let behind =
            "。这是 Cloudflare TryCloudflare 服务端问题，不是 liver 代码问题。请稍后重试，或改用登录后的 named tunnel。"@;
        text::lemma_has(e.detail, e.detail, ahead, behind);
        assert(give_up_text(e.detail) =~= ahead + e.detail + behind);
    }
}

/// The process is told where the server is, over which version of IP it is to
/// go, and where its certificate is exactly where there is one. Nothing of it
/// changes the rest.
pub proof fn lemma_launch_args(port: u16, version: Seq<char>, cert: Option<Seq<char>>)
    ensures
        ({
            let args = launch_args(port, version, cert);
            &&& args.len() == (if cert is Some {
                9int
            } else {
                7
            })
            &&& args[0] == "tunnel"@
            &&& args[1] == "--url"@ && args[2] == "http://127.0.0.1:"@ + decimal::decimal(
                port as int,
            )
            &&& args[3] == "--protocol"@ && args[4] == "http2"@
            &&& args[5] == "--edge-ip-version"@ && args[6] == version
            &&& cert is Some ==> args[7] == "--origincert"@ && Some(args[8]) == cert
        }),
{
}

/// A line is logged as it is without an address, and where it holds the address
/// of the tunnel, that of the client page follows, which is the tunnel's with
/// `/client` behind it.
pub proof fn lemma_client_page_is_announced(log: TunnelLog, line: Seq<char>)
    ensures
        ({
            let said = tunnel_log::log_entries(log, line);
            let all = all_entries(log, seq![line]);
            match tunnel_url::tunnel_url(line) {
                Some(url) => all == said.push(
                    Logged {
                        source: LogSource::Cloudflared,
                        level: LogLevel::Info,
                        text: "client URL: "@ + url + "/client"@,
                    },
                ),
                None => all == said,
            }
        }),
        tunnel_log::log_after_all(log, seq![line]) == tunnel_log::log_after(log, line),
{
    let lines = seq![line];
    assert(lines.drop_last() =~= Seq::<Seq<char>>::empty());
    assert(lines.last() == line);
    reveal_with_fuel(all_entries, 2);
    reveal_with_fuel(tunnel_log::log_after_all, 2);
    assert(all_entries(log, lines) =~= line_entries(log, line));
}

/// Each attempt begins as unconnected, and with the hints on DNS as given or not
/// as they were.
pub proof fn lemma_attempt_begins(log: TunnelLog)
    ensures
        !tunnel_log::attempt_begun(log).connected,
        tunnel_log::attempt_begun(log).dns_hint_printed == log.dns_hint_printed,
{
}

/// A line is an error of the service exactly where it holds one of the two
/// phrases, and the message is handed on, whichever phrase it is.
pub proof fn lemma_service_errors(line: Seq<char>, msg: Seq<char>)
    ensures
        service_error_in(line, msg) is Some <==> text::has(
            line,
            "Error unmarshaling QuickTunnel response"@,
        ) || text::has(line, "failed to unmarshal quick Tunnel"@),
        service_error_in(line, msg) matches Some(e) ==> e
            == "TryCloudflare returned an invalid Quick Tunnel response: "@ + msg,
{
}

/// The pause is 2 seconds behind the first attempt and 5 behind every later one.
pub proof fn lemma_retry_delay(attempt: int)
    ensures
        attempt <= 1 ==> retry_delay(attempt) == 2,
        attempt >= 2 ==> retry_delay(attempt) == 5,
{
}

/// Errors, runs and steps are seen as what they hold.
pub proof fn lemma_views(e: TunnelLaunchError, s: CloudflaredAttemptState, t: TunnelStep)
    ensures
        e@.kind == e.kind && e@.detail == e.detail@,
        s@.connected == s.connected,
        s@.service_error is Some <==> s.cloudflare_service_error is Some,
        s.cloudflare_service_error matches Some(d) ==> s@.service_error == Some(d@),
        s@.last_error is Some <==> s.last_error is Some,
        s.last_error matches Some(d) ==> s@.last_error == Some(d@),
        t is Done <==> t@ is Done,
        t is Retry <==> t@ is Retry,
        t is GiveUp <==> t@ is GiveUp,
        t is Stop <==> t@ is Stop,
        t matches TunnelStep::Retry { delay_secs } ==> t@->delay_secs == delay_secs,
        t matches TunnelStep::GiveUp { message } ==> t@->GiveUp_message == message@,
        t matches TunnelStep::Stop { message } ==> t@->Stop_message == message@,
        service_error(e.detail@).kind is CloudflareService && service_error(e.detail@).detail
            == e.detail@,
        local_error(e.detail@).kind is LocalProcess && local_error(e.detail@).detail == e.detail@,
{
}

} // verus!
