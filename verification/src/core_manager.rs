//! The decisions of the core's life cycle: which core may run, which process a
//! pid file names, and how a start, a recovery, a stop or a reload proceeds.
use vstd::prelude::*;
use crate::help::{decimal_value, is_unsigned_decimal, parse_unsigned, unsigned_digits};
use crate::text::{append_str, chars_contain, chars_of, contains_str, str_equal, string_of};

verus! {

/// The cores that may be switched to.
pub open spec fn is_known_core(name: Seq<char>) -> bool {
    name == "clash-meta"@ || name == "clash-meta-alpha"@
}

/// Checks the core asked for: none is an error, as is a name that is not one of
/// the known cores.
pub fn change_core(clash_core: Option<&str>) -> (r: Result<String, String>)
    ensures
        match clash_core {
            None => r matches Err(m) && m@ == "clash core is null"@,
            Some(c) => if is_known_core(c@) {
                r matches Ok(n) && n@ == c@
            } else {
                r matches Err(m) && m@ == "invalid clash core name \""@ + c@ + "\""@
            },
        },
{
    let name = match clash_core {
        None => return Err(string_of(chars_of("clash core is null").as_slice())),
        Some(c) => c,
    };
    if str_equal(name, "clash-meta") || str_equal(name, "clash-meta-alpha") {
        Ok(string_of(chars_of(name).as_slice()))
    } else {
        let mut m = chars_of("invalid clash core name \"");
        append_str(&mut m, name);
        append_str(&mut m, "\"");
        Err(string_of(m.as_slice()))
    }
}

/// The pid that the text of a pid file spells, read as a `u32`.
pub fn pid_from_text(text: &str) -> (r: Option<u32>)
    ensures
        match r {
            Some(p) => is_unsigned_decimal(text@, u32::MAX as int) && p == decimal_value(unsigned_digits(text@)),
            None => !is_unsigned_decimal(text@, u32::MAX as int),
        },
{
    match parse_unsigned(&chars_of(text), 0xffff_ffff) {
        Some(v) => Some(v as u32),
        None => None,
    }
}

/// A process whose name holds `clash` is taken to be a core.
pub fn is_clash_process(name: &str) -> (r: bool)
    ensures
        r == contains_str(name@, "clash"@),
{
    chars_contain(&chars_of(name), &chars_of("clash"))
}

/// The pause after a running core was stopped, in milliseconds.
pub const STOP_PAUSE_MS: u64 = 500;

/// How a start of the core proceeds.
pub struct RunCorePlan {
    /// Kill the core that runs as a child process.
    pub stop_sidecar: bool,
    /// Ask the Windows service to stop the core it runs.
    pub stop_service_core: bool,
    /// How long to wait after stopping, before starting, in milliseconds.
    pub wait_after_stop_ms: u64,
    /// Start the core through the Windows service rather than as a child process.
    pub use_service: bool,
}

/// Plans a start of the core: whatever core runs is stopped first (the child
/// process, and on Windows a core the service manages), and on Windows the core
/// is started through the service when service mode is on.  After a stop the
/// start waits [`STOP_PAUSE_MS`]; on Windows a core then started as a child
/// process waits that pause twice.
pub fn run_core_plan(sidecar_running: bool, service_core_managed: bool, desired_service_mode: bool, windows: bool) -> (r:
    RunCorePlan)
    ensures
        r.stop_sidecar == sidecar_running,
        r.stop_service_core == (windows && service_core_managed),
        r.wait_after_stop_ms == if sidecar_running || (windows && service_core_managed) {
            if windows && !desired_service_mode {
                2 * STOP_PAUSE_MS
            } else {
                STOP_PAUSE_MS as int
            }
        } else {
            0int
        },
        r.use_service == (windows && desired_service_mode),
{
    let stop_service_core = windows && service_core_managed;
    let wait_after_stop_ms = if sidecar_running || stop_service_core {
        if windows && !desired_service_mode {
            2 * STOP_PAUSE_MS
        } else {
            STOP_PAUSE_MS
        }
    } else {
        0
    };
    RunCorePlan {
        stop_sidecar: sidecar_running,
        stop_service_core,
        wait_after_stop_ms,
        use_service: windows && desired_service_mode,
    }
}

/// The error given when the service could not start the core.
pub open spec fn service_mode_failure_message(tun_enabled: bool, err: Seq<char>) -> Seq<char> {
    if tun_enabled {
        "Tun mode requires a working clash-verge-service on Windows: "@ + err
    } else {
        "Service Mode failed; service could not start clash core. "@ + err
    }
}

pub fn service_mode_failure(tun_enabled: bool, err: &str) -> (r: String)
    ensures
        r@ == service_mode_failure_message(tun_enabled, err@),
{
    let mut m = if tun_enabled {
        chars_of("Tun mode requires a working clash-verge-service on Windows: ")
    } else {
        chars_of("Service Mode failed; service could not start clash core. ")
    };
    append_str(&mut m, err);
    string_of(m.as_slice())
}

/// Whether a core that terminated is started again: only when no child process
/// has taken its place, and on Windows only when neither service mode is on nor
/// the service runs a core.
pub fn recover_core(sidecar_present: bool, windows: bool, desired_service_mode: bool, service_core_running: bool) -> (r:
    bool)
    ensures
        r == (!sidecar_present && !(windows && (desired_service_mode || service_core_running))),
{
    !sidecar_present && !(windows && (desired_service_mode || service_core_running))
}

/// What a stop of the core stops: the core the service runs (on Windows) and the
/// child process.
pub fn stop_core(windows: bool, service_core_running: bool, sidecar_running: bool) -> (r: (bool, bool))
    ensures
        r == (windows && service_core_running, sidecar_running),
{
    (windows && service_core_running, sidecar_running)
}

/// The outcome of one attempt to load a configuration into the core.
#[derive(Clone, Copy, Debug, PartialEq, Eq, Structural)]
pub enum ReloadStep {
    /// Loaded.
    Done,
    /// Failed; wait `pause_ms` milliseconds and try again.
    Retry { pause_ms: u64 },
    /// Failed for the last time.
    Fail,
}

/// The number of attempts to load a configuration into the core.
pub const RELOAD_ATTEMPTS: u32 = 5;

/// The pause before another attempt to load a configuration, in milliseconds.
pub const RELOAD_RETRY_PAUSE_MS: u64 = 250;

/// Judges attempt number `attempt` (counting from 0) of loading a configuration:
/// five attempts are made, [`RELOAD_RETRY_PAUSE_MS`] apart.
pub fn update_config(attempt: u32, succeeded: bool) -> (r: ReloadStep)
    requires
        attempt < RELOAD_ATTEMPTS,
    ensures
        r == (if succeeded {
            ReloadStep::Done
        } else if attempt + 1 < RELOAD_ATTEMPTS {
            ReloadStep::Retry { pause_ms: RELOAD_RETRY_PAUSE_MS }
        } else {
            ReloadStep::Fail
        }),
{
    if succeeded {
        ReloadStep::Done
    } else if attempt < RELOAD_ATTEMPTS - 1 {
        ReloadStep::Retry { pause_ms: RELOAD_RETRY_PAUSE_MS }
    } else {
        ReloadStep::Fail
    }
}

} // verus!
