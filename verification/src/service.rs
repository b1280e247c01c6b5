//! The Windows service that hosts the core: reading what `sc.exe` reports,
//! what the service's API answers, and deciding whether a running core can be
//! reused.
use vstd::prelude::*;
use vstd::string::StringSliceAdditionalSpecFns;
use crate::text::{
    append_chars, append_str, ascii_lower, chars_equal, chars_contain, chars_of, contains_str, eq_ignore_ascii_case, i64_text,
    signed_decimal_text, decimal_text, str_eq_ignore_ascii_case, string_of, to_ascii_lower_char, u64_text,
    upper_ascii, upper_ascii_chars,
};
use crate::yaml::{Mapping, Yaml, YamlV, lookup, mwf, yaml_str};

verus! {

/// The name the service is installed under.
pub open spec fn service_name() -> Seq<char> {
    "clash-verge-service"@
}

// ---------------------------------------------------------------------------
// What sc.exe reports
// ---------------------------------------------------------------------------

/// The exit code and output of one run of `sc.exe`.
pub struct ScResult {
    pub code: i32,
    pub stdout: String,
    pub stderr: String,
}

/// The state of the service as `sc.exe query` shows it.
#[derive(Clone, Copy, Debug, PartialEq, Eq, Structural)]
pub enum ServiceStateHint {
    Running,
    StartPending,
    Other,
}

/// The service exists when `sc.exe query` ran and succeeded.
pub fn service_exists(query: Option<&ScResult>) -> (r: bool)
    ensures
        r == (query matches Some(q) && q.code == 0),
{
    match query {
        Some(q) => q.code == 0,
        None => false,
    }
}

/// The state of the service from the output of `sc.exe query`: `Other` when
/// the query did not run or failed.
pub open spec fn service_state_from(query: Option<ScResult>) -> ServiceStateHint {
    match query {
        Some(q) => if q.code != 0 {
            ServiceStateHint::Other
        } else if contains_str(upper_ascii(q.stdout@), "RUNNING"@) {
            ServiceStateHint::Running
        } else if contains_str(upper_ascii(q.stdout@), "START_PENDING"@) {
            ServiceStateHint::StartPending
        } else {
            ServiceStateHint::Other
        },
        None => ServiceStateHint::Other,
    }
}

pub fn query_service_state(query: Option<&ScResult>) -> (r: ServiceStateHint)
    ensures
        r == service_state_from(
            match query {
                Some(q) => Some(*q),
                None => None,
            },
        ),
{
    match query {
        None => ServiceStateHint::Other,
        Some(q) => {
            if q.code != 0 {
                return ServiceStateHint::Other;
            }
            let out = upper_ascii_chars(&chars_of(q.stdout.as_str()));
            if chars_contain(&out, &chars_of("RUNNING")) {
                ServiceStateHint::Running
            } else if chars_contain(&out, &chars_of("START_PENDING")) {
                ServiceStateHint::StartPending
            } else {
                ServiceStateHint::Other
            }
        },
    }
}

/// The error given when `sc.exe start` fails.
pub open spec fn start_failure_message(code: i32, stdout: Seq<char>, stderr: Seq<char>) -> Seq<char> {
    "failed to start service process. expected service name: clash-verge-service; service binary: clash-verge-service.exe; install helper: install-service.exe; uninstall helper: uninstall-service.exe; sc.exe start exit code: "@
        + signed_decimal_text(code as int) + "; stdout: "@ + stdout + "; stderr: "@ + stderr
}

/// `sc.exe start` succeeded, or said that the service is already running.
pub open spec fn service_start_ok(code: i32, stdout: Seq<char>, stderr: Seq<char>) -> bool {
    let out = upper_ascii(stdout + "\n"@ + stderr);
    code == 0 || code == 1056 || contains_str(out, "1056"@) || contains_str(
        out,
        "INSTANCE OF THE SERVICE IS ALREADY RUNNING"@,
    )
}

/// Judges the result of `sc.exe start`: success, or a service that already runs,
/// is fine; anything else is an error that names the service, its binaries and
/// what `sc.exe` printed.
pub fn start_service_process(start: &ScResult) -> (r: Result<(), String>)
    ensures
        match r {
            Ok(()) => service_start_ok(start.code, start.stdout@, start.stderr@),
            Err(msg) => !service_start_ok(start.code, start.stdout@, start.stderr@) && msg@
                == start_failure_message(start.code, start.stdout@, start.stderr@),
        },
{
    if start.code == 0 {
        return Ok(());
    }
    let mut joined = chars_of(start.stdout.as_str());
    append_str(&mut joined, "\n");
    append_str(&mut joined, start.stderr.as_str());
    let out = upper_ascii_chars(&joined);
    if start.code == 1056 || chars_contain(&out, &chars_of("1056")) || chars_contain(
        &out,
        &chars_of("INSTANCE OF THE SERVICE IS ALREADY RUNNING"),
    ) {
        return Ok(());
    }
    let mut msg = chars_of(
        "failed to start service process. expected service name: clash-verge-service; service binary: clash-verge-service.exe; install helper: install-service.exe; uninstall helper: uninstall-service.exe; sc.exe start exit code: ",
    );
    let code_text = i64_text(start.code as i64);
    append_chars(&mut msg, &code_text);
    append_str(&mut msg, "; stdout: ");
    append_str(&mut msg, start.stdout.as_str());
    append_str(&mut msg, "; stderr: ");
    append_str(&mut msg, start.stderr.as_str());
    Err(string_of(msg.as_slice()))
}

// ---------------------------------------------------------------------------
// What the service's API answers
// ---------------------------------------------------------------------------

/// The core that the service runs.
#[derive(Clone, Debug)]
pub struct ResponseBody {
    pub core_type: Option<String>,
    pub pid: Option<u32>,
    pub running: Option<bool>,
    pub bin_path: String,
    pub config_dir: String,
    pub config_file: Option<String>,
    pub log_file: String,
}

/// The service's answer about its core.
#[derive(Clone, Debug)]
pub struct JsonResponse {
    pub code: u64,
    pub msg: String,
    pub data: Option<ResponseBody>,
}

#[derive(Clone, Debug)]
pub struct HealthData {
    pub service: String,
}

/// The service's answer to a health check.
#[derive(Clone, Debug)]
pub struct HealthResponse {
    pub code: u64,
    pub msg: String,
    pub data: Option<HealthData>,
}

/// The state of the service and of the core it hosts.
#[derive(Clone, Debug)]
pub struct ServiceStatus {
    pub installed: bool,
    pub running: bool,
    pub api_ready: bool,
    pub core_managed: bool,
    pub core_pid: Option<u32>,
    pub service_name: String,
    pub message: String,
}

/// The message that sums up the service's state.
pub open spec fn service_message(installed: bool, running: bool, api_ready: bool, core_pid: Option<u32>) -> Seq<
    char,
> {
    if !installed {
        "service not installed."@
    } else if !running {
        "service installed but stopped."@
    } else if !api_ready {
        "service running, API not ready."@
    } else if core_pid is None {
        "service running, API ready, core not managed by service."@
    } else {
        "service running, API ready, core managed by service (pid "@ + decimal_text(core_pid->0 as nat) + ")."@
    }
}

/// The service's state from what was observed: whether it is installed, the
/// state `sc.exe` shows, its health answer, and (read only when healthy) its
/// answer about the core.
pub fn check_service(
    installed: bool,
    state: ServiceStateHint,
    health: Option<&HealthResponse>,
    clash: Option<&JsonResponse>,
) -> (r: ServiceStatus)
    ensures
        r.installed == installed,
        r.running == (installed && state == ServiceStateHint::Running),
        r.api_ready == (health matches Some(h) && h.code == 0),
        r.core_pid == (if r.api_ready {
            match clash {
                Some(c) => match c.data {
                    Some(d) => d.pid,
                    None => None,
                },
                None => None,
            }
        } else {
            None
        }),
        r.core_managed == r.core_pid is Some,
        r.service_name@ == service_name(),
        r.message@ == service_message(r.installed, r.running, r.api_ready, r.core_pid),
{
    let running = installed && state == ServiceStateHint::Running;
    let api_ready = match health {
        Some(h) => h.code == 0,
        None => false,
    };
    let core_pid = if api_ready {
        match clash {
            Some(c) => match &c.data {
                Some(d) => d.pid,
                None => None,
            },
            None => None,
        }
    } else {
        None
    };
    let message = if !installed {
        string_of(chars_of("service not installed.").as_slice())
    } else if !running {
        string_of(chars_of("service installed but stopped.").as_slice())
    } else if !api_ready {
        string_of(chars_of("service running, API not ready.").as_slice())
    } else {
        match core_pid {
            None => string_of(chars_of("service running, API ready, core not managed by service.").as_slice()),
            Some(pid) => {
                let mut m = chars_of("service running, API ready, core managed by service (pid ");
                append_chars(&mut m, &u64_text(pid as u64));
                append_str(&mut m, ").");
                string_of(m.as_slice())
            },
        }
    };
    ServiceStatus {
        installed,
        running,
        api_ready,
        core_managed: core_pid.is_some(),
        core_pid,
        service_name: string_of(chars_of("clash-verge-service").as_slice()),
        message,
    }
}

/// The service is ready: `sc.exe` shows it running and its health check answers
/// with code 0.
pub fn service_ready(state: ServiceStateHint, health_code: Option<u64>) -> (r: bool)
    ensures
        r == (state == ServiceStateHint::Running && health_code == Some(0u64)),
{
    state == ServiceStateHint::Running && match health_code {
        Some(c) => c == 0,
        None => false,
    }
}

/// The error given when the service is not ready in time, after the state that
/// `sc.exe` shows last.
pub open spec fn ready_timeout_message(state: ServiceStateHint) -> Seq<char> {
    match state {
        ServiceStateHint::StartPending => "Windows service is stuck in StartPending and API 127.0.0.1:33211 is not ready."@,
        ServiceStateHint::Running => "service API 127.0.0.1:33211 is not ready after start timeout; current service state: Running"@,
        ServiceStateHint::Other => "service API 127.0.0.1:33211 is not ready after start timeout; current service state: Other"@,
    }
}

/// One round of waiting for the service after starting it: ready, or, once the
/// time is up, the error to give; `None` means wait and ask again.
pub fn ensure_service_ready(ready: bool, state: ServiceStateHint, timed_out: bool) -> (r: Option<Result<(), String>>)
    ensures
        ready ==> r == Some(Ok::<(), String>(())),
        !ready && !timed_out ==> r is None,
        !ready && timed_out ==> (r matches Some(Err(msg)) && msg@ == ready_timeout_message(state)),
{
    if ready {
        return Some(Ok(()));
    }
    if !timed_out {
        return None;
    }
    let msg = match state {
        ServiceStateHint::StartPending => "Windows service is stuck in StartPending and API 127.0.0.1:33211 is not ready.",
        ServiceStateHint::Running => "service API 127.0.0.1:33211 is not ready after start timeout; current service state: Running",
        ServiceStateHint::Other => "service API 127.0.0.1:33211 is not ready after start timeout; current service state: Other",
    };
    Some(Err(string_of(chars_of(msg).as_slice())))
}

// ---------------------------------------------------------------------------
// Paths and URLs
// ---------------------------------------------------------------------------

/// A Windows path compared case-insensitively, with `/` read as `\`.
pub open spec fn windows_path_key(s: Seq<char>) -> Seq<char> {
    s.map_values(|c: char| ascii_lower(if c == '/' { '\\' } else { c }))
}

fn windows_path_key_exec(s: &str) -> (r: Vec<char>)
    ensures
        r@ == windows_path_key(s@),
{
    let cs = chars_of(s);
    let mut out: Vec<char> = Vec::new();
    let mut i: usize = 0;
    while i < cs.len()
        invariant
            i <= cs@.len(),
            cs@ == s@,
            out@ == windows_path_key(cs@.take(i as int)),
        decreases cs.len() - i,
    {
        let c = if cs[i] == '/' { '\\' } else { cs[i] };
        out.push(to_ascii_lower_char(c));
        assert(windows_path_key(cs@.take(i + 1)) =~= windows_path_key(cs@.take(i as int)).push(out@.last()));
        i = i + 1;
    }
    assert(cs@.take(cs@.len() as int) =~= cs@);
    out
}

/// Two paths name the same file: their canonical forms agree when both could
/// be had (`canonical_a`, `canonical_b`), else the paths themselves agree, each
/// compared as [`windows_path_key`] compares.
pub fn same_windows_path(a: &str, b: &str, canonical_a: Option<&str>, canonical_b: Option<&str>) -> (r: bool)
    ensures
        r == match (canonical_a, canonical_b) {
            (Some(x), Some(y)) => windows_path_key(x@) == windows_path_key(y@),
            _ => windows_path_key(a@) == windows_path_key(b@),
        },
{
    let (x, y) = match canonical_a {
        Some(ca) => match canonical_b {
            Some(cb) => (ca, cb),
            None => (a, b),
        },
        None => (a, b),
    };
    let kx = windows_path_key_exec(x);
    let ky = windows_path_key_exec(y);
    let ghost goal = match (canonical_a, canonical_b) {
        (Some(x), Some(y)) => windows_path_key(x@) == windows_path_key(y@),
        _ => windows_path_key(a@) == windows_path_key(b@),
    };
    assert(goal == (kx@ == ky@));
    if kx.len() != ky.len() {
        return false;
    }
    let mut i: usize = 0;
    while i < kx.len()
        invariant
            goal == (kx@ == ky@),
            goal == match (canonical_a, canonical_b) {
                (Some(x), Some(y)) => windows_path_key(x@) == windows_path_key(y@),
                _ => windows_path_key(a@) == windows_path_key(b@),
            },
            i <= kx@.len(),
            kx@.len() == ky@.len(),
            forall|j: int| 0 <= j < i ==> kx@[j] == ky@[j],
        decreases kx.len() - i,
    {
        if kx[i] != ky[i] {
            assert(kx@[i as int] != ky@[i as int]);
            return false;
        }
        i = i + 1;
    }
    assert(kx@ =~= ky@);
    true
}

/// A byte that stands for itself in a URL path segment.
pub open spec fn is_unreserved(b: u8) -> bool {
    (65 <= b <= 90) || (97 <= b <= 122) || (48 <= b <= 57) || b == 45 || b == 95 || b == 46 || b == 126
}

/// The upper-case hexadecimal digit of `n`.
pub open spec fn hex_digit(n: u8) -> char {
    if n < 10 {
        (48 + n) as char
    } else {
        (55 + n) as char
    }
}

/// A byte as it stands in an encoded path segment.
pub open spec fn encode_byte(b: u8) -> Seq<char> {
    if is_unreserved(b) {
        seq![b as char]
    } else {
        seq!['%', hex_digit(b / 16), hex_digit(b % 16)]
    }
}

/// The bytes percent-encoded for a URL path segment.
pub open spec fn url_encoded(bytes: Seq<u8>) -> Seq<char>
    decreases bytes.len(),
{
    if bytes.len() == 0 {
        Seq::empty()
    } else {
        url_encoded(bytes.drop_last()) + encode_byte(bytes.last())
    }
}

fn hex_char(n: u8) -> (r: char)
    requires
        n < 16,
    ensures
        r == hex_digit(n),
{
    if n < 10 {
        (48u8 + n) as char
    } else {
        (55u8 + n) as char
    }
}

/// The UTF-8 bytes of `input`, percent-encoded for a URL path segment: letters,
/// digits and `-_.~` stand for themselves, any other byte becomes `%XX`.
pub fn encode_url_path_segment(input: &str) -> (r: String)
    ensures
        r@ == url_encoded(input.spec_bytes()),
{
    let bytes = input.as_bytes();
    let mut out: Vec<char> = Vec::new();
    let mut i: usize = 0;
    while i < bytes.len()
        invariant
            i <= bytes@.len(),
            bytes@ == input.spec_bytes(),
            out@ == url_encoded(bytes@.take(i as int)),
        decreases bytes.len() - i,
    {
        let b = bytes[i];
        let ghost before = out@;
        if (65 <= b && b <= 90) || (97 <= b && b <= 122) || (48 <= b && b <= 57) || b == 45 || b == 95 || b == 46
            || b == 126 {
            out.push(b as char);
        } else {
            out.push('%');
            out.push(hex_char(b / 16));
            out.push(hex_char(b % 16));
        }
        proof {
            assert(bytes@.take(i + 1).drop_last() =~= bytes@.take(i as int));
            assert(bytes@.take(i + 1).last() == b);
            assert(out@ =~= before + encode_byte(b));
        }
        i = i + 1;
    }
    assert(bytes@.take(bytes@.len() as int) =~= bytes@);
    string_of(out.as_slice())
}

// ---------------------------------------------------------------------------
// Reusing a running core
// ---------------------------------------------------------------------------

/// What to do about the core when the service is asked to run it.
#[derive(Clone, Copy, Debug, PartialEq, Eq, Structural)]
pub enum ServiceCoreAction {
    /// The running core already runs this configuration: keep it.
    Reuse,
    /// Stop the core the service runs, then start it anew.
    Restart,
    /// Start the core.
    Start,
}

/// The core the service runs is the one wanted: it has a process, and its core
/// type, binary, configuration directory and configuration file all match.
/// The path comparisons come from [`same_windows_path`]; a core that reports no
/// configuration file never matches.
pub open spec fn same_runtime_spec(
    existing: Option<ResponseBody>,
    clash_core: Seq<char>,
    bin_same: bool,
    dir_same: bool,
    file_same: bool,
) -> bool {
    match existing {
        Some(d) => d.pid is Some && (d.core_type matches Some(t) && t@ == clash_core) && bin_same && dir_same
            && d.config_file is Some && file_same,
        None => false,
    }
}

/// Decides whether a running core can be reused, must be restarted, or is to be
/// started: reuse needs permission, a core the service manages, and the same
/// runtime.
pub fn run_core_by_service(
    allow_reuse: bool,
    core_managed: bool,
    existing: Option<&ResponseBody>,
    clash_core: &str,
    bin_same: bool,
    dir_same: bool,
    file_same: bool,
) -> (r: ServiceCoreAction)
    ensures
        r == (if allow_reuse && core_managed && same_runtime_spec(
            match existing {
                Some(d) => Some(*d),
                None => None,
            },
            clash_core@,
            bin_same,
            dir_same,
            file_same,
        ) {
            ServiceCoreAction::Reuse
        } else if core_managed {
            ServiceCoreAction::Restart
        } else {
            ServiceCoreAction::Start
        }),
{
    let same = match existing {
        Some(d) => {
            let type_same = match &d.core_type {
                Some(t) => {
                    let a = chars_of(t.as_str());
                    let b = chars_of(clash_core);
                    chars_equal(&a, &b)
                },
                None => false,
            };
            d.pid.is_some() && type_same && bin_same && dir_same && d.config_file.is_some() && file_same
        },
        None => false,
    };
    if allow_reuse && core_managed && same {
        ServiceCoreAction::Reuse
    } else if core_managed {
        ServiceCoreAction::Restart
    } else {
        ServiceCoreAction::Start
    }
}

/// The `tun.enable` switch of a runtime configuration.
pub open spec fn tun_enable_of(config: Seq<(YamlV, YamlV)>) -> Option<bool> {
    match lookup(config, yaml_str("tun"@)) {
        Some(YamlV::Mapping(t)) => match lookup(t, yaml_str("enable"@)) {
            Some(YamlV::Bool(b)) => Some(b),
            _ => None,
        },
        _ => None,
    }
}

/// Reads the `tun.enable` switch of a runtime configuration.
pub fn read_tun_enable(config: &Mapping) -> (r: Option<bool>)
    requires
        mwf(config@),
    ensures
        r == tun_enable_of(config@),
{
    match config.get(&Yaml::string("tun")) {
        Some(t) => match t.as_mapping() {
            Some(m) => match m.get(&Yaml::string("enable")) {
                Some(v) => v.as_bool(),
                None => None,
            },
            None => None,
        },
        None => None,
    }
}

/// TUN runs on a stack other than gVisor, which is worth a warning.
pub fn tun_stack_needs_warning(tun_enabled: bool, tun_stack: &str) -> (r: bool)
    ensures
        r == (tun_enabled && !eq_ignore_ascii_case(tun_stack@, "gvisor"@)),
{
    tun_enabled && !str_eq_ignore_ascii_case(tun_stack, "gvisor")
}


// ---------------------------------------------------------------------------
// Starting the core through the service
// ---------------------------------------------------------------------------

/// How many times the start asks for the core's pid, and then for its API.
pub const START_POLL_TRIES: u32 = 20;

/// How long the start waits between two asks, in milliseconds.
pub const START_POLL_INTERVAL_MS: u64 = 300;

/// How long the start waits after the service stopped the old core, in
/// milliseconds.
pub const RESTART_PAUSE_MS: u64 = 1000;

/// Where the start of the core through the service stands.
#[derive(Clone, Copy, Debug, PartialEq, Eq, Structural)]
pub enum CoreStartPhase {
    /// The service has been asked to stop the core it runs.
    Stopping,
    /// The service has been asked to start the core.
    Starting,
    /// The service has been asked for the core's pid; `tries` asks before
    /// this one found none.
    PollingPid { tries: u32 },
    /// The core's API has been asked whether it is ready; `tries` asks before
    /// this one found it not ready.
    PollingApi { tries: u32, pid: u32 },
    /// The start is over.
    Done,
}

/// What came back from what the start asked for.
pub enum CoreStartEvent {
    /// The answer to the stop request: `Ok`, or the error it ended with.
    Stopped(Result<(), String>),
    /// The answer to the start request: its code and message, or the error of
    /// a request that got no readable answer.
    StartAnswered(Result<(u64, String), String>),
    /// The pid that the service reports for its core, if any (also `None`
    /// where the service could not be asked).
    PidPolled(Option<u32>),
    /// Whether the core's API answered with success.
    ApiPolled(bool),
}

/// What to do next, after waiting `sleep_ms` milliseconds.
pub enum CoreStartAction {
    /// Ask the service to stop its core.
    SendStop,
    /// Ask the service to start the core, with [`start_clash_body`].
    SendStart,
    /// Ask the service for the core's pid.
    PollPid,
    /// Ask the core's API whether it is ready.
    PollApi,
    /// The start is over, with this result.
    Finish(Result<(), String>),
}

/// The next action and how long to wait before it.
pub struct CoreStartStep {
    pub sleep_ms: u64,
    pub action: CoreStartAction,
}

/// The action, with its error as text.
pub enum StartActionV {
    SendStop,
    SendStart,
    PollPid,
    PollApi,
    Finish(Result<(), Seq<char>>),
}

pub open spec fn action_view(a: CoreStartAction) -> StartActionV {
    match a {
        CoreStartAction::SendStop => StartActionV::SendStop,
        CoreStartAction::SendStart => StartActionV::SendStart,
        CoreStartAction::PollPid => StartActionV::PollPid,
        CoreStartAction::PollApi => StartActionV::PollApi,
        CoreStartAction::Finish(Ok(())) => StartActionV::Finish(Ok(())),
        CoreStartAction::Finish(Err(e)) => StartActionV::Finish(Err(e@)),
    }
}

/// How the start begins: a reused core is done at once; a restart stops the
/// running core first; otherwise the start request goes out.
pub open spec fn core_start_begin(action: ServiceCoreAction) -> (CoreStartPhase, StartActionV) {
    match action {
        ServiceCoreAction::Reuse => (CoreStartPhase::Done, StartActionV::Finish(Ok(()))),
        ServiceCoreAction::Restart => (CoreStartPhase::Stopping, StartActionV::SendStop),
        ServiceCoreAction::Start => (CoreStartPhase::Starting, StartActionV::SendStart),
    }
}

/// Begins the start of the core for the decision of [`run_core_by_service`].
pub fn begin_core_start(action: ServiceCoreAction) -> (r: (CoreStartPhase, CoreStartStep))
    ensures
        (r.0, action_view(r.1.action)) == core_start_begin(action),
        r.1.sleep_ms == 0,
{
    match action {
        ServiceCoreAction::Reuse => (CoreStartPhase::Done, CoreStartStep { sleep_ms: 0, action: CoreStartAction::Finish(Ok(())) }),
        ServiceCoreAction::Restart => (CoreStartPhase::Stopping, CoreStartStep { sleep_ms: 0, action: CoreStartAction::SendStop }),
        ServiceCoreAction::Start => (CoreStartPhase::Starting, CoreStartStep { sleep_ms: 0, action: CoreStartAction::SendStart }),
    }
}

/// A phase the start can be in while it waits: the counts of asks stay below
/// [`START_POLL_TRIES`].
pub open spec fn start_phase_ok(p: CoreStartPhase) -> bool {
    match p {
        CoreStartPhase::PollingPid { tries } => tries < START_POLL_TRIES,
        CoreStartPhase::PollingApi { tries, .. } => tries < START_POLL_TRIES,
        CoreStartPhase::Done => false,
        _ => true,
    }
}

/// The event answers what the phase asked for.
pub open spec fn start_event_fits(p: CoreStartPhase, e: CoreStartEvent) -> bool {
    match p {
        CoreStartPhase::Stopping => e is Stopped,
        CoreStartPhase::Starting => e is StartAnswered,
        CoreStartPhase::PollingPid { .. } => e is PidPolled,
        CoreStartPhase::PollingApi { .. } => e is ApiPolled,
        CoreStartPhase::Done => false,
    }
}

/// The error of a core whose pid never came.
pub open spec fn no_pid_message() -> Seq<char> {
    "service did not start clash core; /get_clash has no pid"@
}

/// The error of a core whose API never became ready.
pub open spec fn api_not_ready_message(pid: u32, log_path: Seq<char>) -> Seq<char> {
    "service started clash core (pid Some("@ + decimal_text(pid as nat)
        + ")) but external-controller 127.0.0.1:9097 is not ready. service log file: "@ + log_path
}

/// One step of the start: the next phase, the wait and the action.  A failed
/// stop or start request ends the start with its error, as does a start
/// request answered with a code other than 0, with the answer's message.  The
/// pid is asked for until it comes, at most [`START_POLL_TRIES`] times, then the
/// API until it is ready, at most as often; between two asks, and before
/// giving up, the start waits [`START_POLL_INTERVAL_MS`].
pub open spec fn core_start_next(p: CoreStartPhase, e: CoreStartEvent, log_path: Seq<char>) -> (
    CoreStartPhase,
    u64,
    StartActionV,
) {
    match p {
        CoreStartPhase::Stopping => match e {
            CoreStartEvent::Stopped(Ok(())) => (CoreStartPhase::Starting, RESTART_PAUSE_MS, StartActionV::SendStart),
            CoreStartEvent::Stopped(Err(msg)) => (CoreStartPhase::Done, 0, StartActionV::Finish(Err(msg@))),
            _ => (p, 0, StartActionV::PollPid),
        },
        CoreStartPhase::Starting => match e {
            CoreStartEvent::StartAnswered(Ok((code, msg))) => if code == 0 {
                (CoreStartPhase::PollingPid { tries: 0 }, 0, StartActionV::PollPid)
            } else {
                (CoreStartPhase::Done, 0, StartActionV::Finish(Err(msg@)))
            },
            CoreStartEvent::StartAnswered(Err(msg)) => (CoreStartPhase::Done, 0, StartActionV::Finish(Err(msg@))),
            _ => (p, 0, StartActionV::PollPid),
        },
        CoreStartPhase::PollingPid { tries } => match e {
            CoreStartEvent::PidPolled(Some(pid)) => (CoreStartPhase::PollingApi { tries: 0, pid }, 0, StartActionV::PollApi),
            _ => if tries + 1 < START_POLL_TRIES {
                (CoreStartPhase::PollingPid { tries: (tries + 1) as u32 }, START_POLL_INTERVAL_MS, StartActionV::PollPid)
            } else {
                (CoreStartPhase::Done, START_POLL_INTERVAL_MS, StartActionV::Finish(Err(no_pid_message())))
            },
        },
        CoreStartPhase::PollingApi { tries, pid } => match e {
            CoreStartEvent::ApiPolled(true) => (CoreStartPhase::Done, 0, StartActionV::Finish(Ok(()))),
            _ => if tries + 1 < START_POLL_TRIES {
                (
                    CoreStartPhase::PollingApi { tries: (tries + 1) as u32, pid },
                    START_POLL_INTERVAL_MS,
                    StartActionV::PollApi,
                )
            } else {
                (CoreStartPhase::Done, START_POLL_INTERVAL_MS, StartActionV::Finish(Err(api_not_ready_message(pid, log_path))))
            },
        },
        CoreStartPhase::Done => (p, 0, StartActionV::Finish(Ok(()))),
    }
}

/// Takes one step of the start of the core, from what came back of the last
/// action; `log_path` is the service's log file, named in the error of an API
/// that never became ready.
pub fn core_start_step(phase: CoreStartPhase, event: CoreStartEvent, log_path: &str) -> (r: (
    CoreStartPhase,
    CoreStartStep,
))
    requires
        start_phase_ok(phase),
        start_event_fits(phase, event),
    ensures
        (r.0, r.1.sleep_ms, action_view(r.1.action)) == core_start_next(phase, event, log_path@),
{
    match phase {
        CoreStartPhase::Stopping => match event {
            CoreStartEvent::Stopped(Ok(())) => (
                CoreStartPhase::Starting,
                CoreStartStep { sleep_ms: RESTART_PAUSE_MS, action: CoreStartAction::SendStart },
            ),
            CoreStartEvent::Stopped(Err(msg)) => (
                CoreStartPhase::Done,
                CoreStartStep { sleep_ms: 0, action: CoreStartAction::Finish(Err(msg)) },
            ),
            _ => (phase, CoreStartStep { sleep_ms: 0, action: CoreStartAction::PollPid }),
        },
        CoreStartPhase::Starting => match event {
            CoreStartEvent::StartAnswered(Ok((code, msg))) => if code == 0 {
                (CoreStartPhase::PollingPid { tries: 0 }, CoreStartStep { sleep_ms: 0, action: CoreStartAction::PollPid })
            } else {
                (CoreStartPhase::Done, CoreStartStep { sleep_ms: 0, action: CoreStartAction::Finish(Err(msg)) })
            },
            CoreStartEvent::StartAnswered(Err(msg)) => (
                CoreStartPhase::Done,
                CoreStartStep { sleep_ms: 0, action: CoreStartAction::Finish(Err(msg)) },
            ),
            _ => (phase, CoreStartStep { sleep_ms: 0, action: CoreStartAction::PollPid }),
        },
        CoreStartPhase::PollingPid { tries } => match event {
            CoreStartEvent::PidPolled(Some(pid)) => (
                CoreStartPhase::PollingApi { tries: 0, pid },
                CoreStartStep { sleep_ms: 0, action: CoreStartAction::PollApi },
            ),
            _ => if tries + 1 < START_POLL_TRIES {
                (
                    CoreStartPhase::PollingPid { tries: tries + 1 },
                    CoreStartStep { sleep_ms: START_POLL_INTERVAL_MS, action: CoreStartAction::PollPid },
                )
            } else {
                let msg = string_of(chars_of("service did not start clash core; /get_clash has no pid").as_slice());
                (
                    CoreStartPhase::Done,
                    CoreStartStep { sleep_ms: START_POLL_INTERVAL_MS, action: CoreStartAction::Finish(Err(msg)) },
                )
            },
        },
        CoreStartPhase::PollingApi { tries, pid } => match event {
            CoreStartEvent::ApiPolled(true) => (
                CoreStartPhase::Done,
                CoreStartStep { sleep_ms: 0, action: CoreStartAction::Finish(Ok(())) },
            ),
            _ => if tries + 1 < START_POLL_TRIES {
                (
                    CoreStartPhase::PollingApi { tries: tries + 1, pid },
                    CoreStartStep { sleep_ms: START_POLL_INTERVAL_MS, action: CoreStartAction::PollApi },
                )
            } else {
                let mut text = chars_of("service started clash core (pid Some(");
                let digits = u64_text(pid as u64);
                append_chars(&mut text, &digits);
                append_str(&mut text, ")) but external-controller 127.0.0.1:9097 is not ready. service log file: ");
                append_str(&mut text, log_path);
                (
                    CoreStartPhase::Done,
                    CoreStartStep {
                        sleep_ms: START_POLL_INTERVAL_MS,
                        action: CoreStartAction::Finish(Err(string_of(text.as_slice()))),
                    },
                )
            },
        },
        CoreStartPhase::Done => (phase, CoreStartStep { sleep_ms: 0, action: CoreStartAction::Finish(Ok(())) }),
    }
}

/// How many steps the start can still take at most.
pub open spec fn start_steps_left(p: CoreStartPhase) -> int {
    match p {
        CoreStartPhase::Stopping => 2 * START_POLL_TRIES + 2,
        CoreStartPhase::Starting => 2 * START_POLL_TRIES + 1,
        CoreStartPhase::PollingPid { tries } => 2 * START_POLL_TRIES - tries,
        CoreStartPhase::PollingApi { tries, .. } => START_POLL_TRIES - tries,
        CoreStartPhase::Done => 0,
    }
}

/// The start always ends: each step either finishes it or leaves a phase in
/// which it waits with fewer steps left, and the counts of asks stay below
/// their bound.
pub proof fn core_start_step_progresses(p: CoreStartPhase, e: CoreStartEvent, log_path: Seq<char>)
    requires
        start_phase_ok(p),
        start_event_fits(p, e),
    ensures
        core_start_next(p, e, log_path).0 is Done <==> core_start_next(p, e, log_path).2 is Finish,
        !(core_start_next(p, e, log_path).0 is Done) ==> start_phase_ok(core_start_next(p, e, log_path).0),
        0 <= start_steps_left(core_start_next(p, e, log_path).0) < start_steps_left(p),
{
}

/// The start reports success only when the core's API answered: every step that
/// ends the start with `Ok` comes from a ready API (or from reusing the core,
/// see [`core_start_begin`]).
pub proof fn core_start_ok_needs_ready_api(p: CoreStartPhase, e: CoreStartEvent, log_path: Seq<char>)
    requires
        start_phase_ok(p),
        start_event_fits(p, e),
        core_start_next(p, e, log_path).2 == StartActionV::Finish(Ok(())),
    ensures
        p is PollingApi,
        e == CoreStartEvent::ApiPolled(true),
{
}

/// The body of the start request: the core type, its binary, the
/// configuration directory and file, and the log file.
pub fn start_clash_body(core_type: &str, bin_path: &str, config_dir: &str, config_file: &str, log_file: &str) -> (r: Vec<(String, String)>)
    ensures
        r@.len() == 5,
        r@[0].0@ == "core_type"@ && r@[0].1@ == core_type@,
        r@[1].0@ == "bin_path"@ && r@[1].1@ == bin_path@,
        r@[2].0@ == "config_dir"@ && r@[2].1@ == config_dir@,
        r@[3].0@ == "config_file"@ && r@[3].1@ == config_file@,
        r@[4].0@ == "log_file"@ && r@[4].1@ == log_file@,
{
    let mut body: Vec<(String, String)> = Vec::new();
    body.push((str_string("core_type"), str_string(core_type)));
    body.push((str_string("bin_path"), str_string(bin_path)));
    body.push((str_string("config_dir"), str_string(config_dir)));
    body.push((str_string("config_file"), str_string(config_file)));
    body.push((str_string("log_file"), str_string(log_file)));
    body
}

fn str_string(s: &str) -> (r: String)
    ensures
        r@ == s@,
{
    s.to_owned()
}

} // verus!
