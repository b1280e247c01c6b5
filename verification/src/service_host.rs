//! The request logic of the Windows service that hosts the core: which handler a
//! request goes to, whether a start request can be served, and what the service
//! answers about its core.
use vstd::prelude::*;
use crate::text::{append_str, chars_of, str_equal, string_of};

verus! {

/// The HTTP method of a request to the service.
#[derive(Clone, Copy, Debug, PartialEq, Eq, Structural)]
pub enum HttpMethod {
    Get,
    Post,
    Other,
}

/// The handler a request goes to.
#[derive(Clone, Copy, Debug, PartialEq, Eq, Structural)]
pub enum ServiceRoute {
    Health,
    GetClash,
    StartClash,
    StopClash,
    NotFound,
}

/// The handler for a method and path: `GET` of the health path, `GET /get_clash`,
/// `POST /start_clash` and `POST /stop_clash`; anything else is not found.
pub open spec fn route_of(method: HttpMethod, url: Seq<char>, health_path: Seq<char>) -> ServiceRoute {
    if method == HttpMethod::Get && url == health_path {
        ServiceRoute::Health
    } else if method == HttpMethod::Get && url == "/get_clash"@ {
        ServiceRoute::GetClash
    } else if method == HttpMethod::Post && url == "/start_clash"@ {
        ServiceRoute::StartClash
    } else if method == HttpMethod::Post && url == "/stop_clash"@ {
        ServiceRoute::StopClash
    } else {
        ServiceRoute::NotFound
    }
}

/// Routes a request.
pub fn route_request(method: HttpMethod, url: &str, health_path: &str) -> (r: ServiceRoute)
    ensures
        r == route_of(method, url@, health_path@),
{
    if method == HttpMethod::Get && str_equal(url, health_path) {
        ServiceRoute::Health
    } else if method == HttpMethod::Get && str_equal(url, "/get_clash") {
        ServiceRoute::GetClash
    } else if method == HttpMethod::Post && str_equal(url, "/start_clash") {
        ServiceRoute::StartClash
    } else if method == HttpMethod::Post && str_equal(url, "/stop_clash") {
        ServiceRoute::StopClash
    } else {
        ServiceRoute::NotFound
    }
}

/// A request to start the core.
pub struct StartClashRequest {
    pub core_type: String,
    pub bin_path: String,
    pub config_dir: String,
    pub config_file: String,
    pub log_file: String,
}

/// The core the service runs.
pub struct ClashStateData {
    pub core_type: String,
    pub bin_path: String,
    pub config_dir: String,
    pub config_file: String,
    pub log_file: String,
    pub pid: u32,
    pub running: bool,
}

/// Why a start request cannot be served: the first of its paths that does not
/// exist, in the order binary, configuration directory, configuration file,
/// directory of the log file.
pub open spec fn start_request_problem(
    req: StartClashRequest,
    bin_exists: bool,
    config_dir_exists: bool,
    config_file_exists: bool,
    log_parent_exists: bool,
) -> Option<Seq<char>> {
    if !bin_exists {
        Some("bin_path not found: "@ + req.bin_path@)
    } else if !config_dir_exists {
        Some("config_dir not found: "@ + req.config_dir@)
    } else if !config_file_exists {
        Some("config_file not found: "@ + req.config_file@)
    } else if !log_parent_exists {
        Some("log_file parent not found: "@ + req.log_file@)
    } else {
        None
    }
}

/// Checks a start request against what exists on disk; the error is answered
/// with code 400.
pub fn validate_start_request(
    req: &StartClashRequest,
    bin_exists: bool,
    config_dir_exists: bool,
    config_file_exists: bool,
    log_parent_exists: bool,
) -> (r: Result<(), String>)
    ensures
        match r {
            Ok(()) => start_request_problem(*req, bin_exists, config_dir_exists, config_file_exists, log_parent_exists)
                is None,
            Err(msg) => start_request_problem(*req, bin_exists, config_dir_exists, config_file_exists, log_parent_exists)
                == Some(msg@),
        },
{
    let (label, value) = if !bin_exists {
        ("bin_path not found: ", req.bin_path.as_str())
    } else if !config_dir_exists {
        ("config_dir not found: ", req.config_dir.as_str())
    } else if !config_file_exists {
        ("config_file not found: ", req.config_file.as_str())
    } else if !log_parent_exists {
        ("log_file parent not found: ", req.log_file.as_str())
    } else {
        return Ok(());
    };
    let mut msg = chars_of(label);
    append_str(&mut msg, value);
    Err(string_of(msg.as_slice()))
}

/// The service's answer: the HTTP status, the answer's code and message, and the
/// core it runs when there is one to report.
pub struct ServiceReply {
    pub status: u16,
    pub code: u64,
    pub msg: String,
    pub data: Option<ClashStateData>,
}

/// Two records of a core hold the same values.
pub open spec fn same_state(a: ClashStateData, b: ClashStateData) -> bool {
    &&& a.core_type@ == b.core_type@
    &&& a.bin_path@ == b.bin_path@
    &&& a.config_dir@ == b.config_dir@
    &&& a.config_file@ == b.config_file@
    &&& a.log_file@ == b.log_file@
    &&& a.pid == b.pid
    &&& a.running == b.running
}

/// Answers `GET /get_clash`: the core when it still runs; a core that has
/// exited is forgotten and reported as not running.
pub fn get_clash_reply(state: &mut Option<ClashStateData>, child_running: bool) -> (r: ServiceReply)
    ensures
        (*old(state)) is None ==> (*final(state)) is None && r.status == 500 && r.code == 500 && r.msg@
            == "clash core is not started"@ && r.data is None,
        (*old(state)) is Some && !child_running ==> (*final(state)) is None && r.status == 500 && r.code == 500
            && r.msg@ == "clash core is not running"@ && r.data is None,
        (*old(state)) is Some && child_running ==> *final(state) == *old(state) && r.status == 200 && r.code == 0
            && r.msg@ == "ok"@ && r.data is Some && same_state(r.data->0, (*old(state))->0),
{
    let current = state.take();
    match current {
        None => ServiceReply {
            status: 500,
            code: 500,
            msg: string_of(chars_of("clash core is not started").as_slice()),
            data: None,
        },
        Some(meta) => {
            if child_running {
                let copy = ClashStateData {
                    core_type: meta.core_type.clone(),
                    bin_path: meta.bin_path.clone(),
                    config_dir: meta.config_dir.clone(),
                    config_file: meta.config_file.clone(),
                    log_file: meta.log_file.clone(),
                    pid: meta.pid,
                    running: meta.running,
                };
                *state = Some(meta);
                ServiceReply { status: 200, code: 0, msg: string_of(chars_of("ok").as_slice()), data: Some(copy) }
            } else {
                ServiceReply {
                    status: 500,
                    code: 500,
                    msg: string_of(chars_of("clash core is not running").as_slice()),
                    data: None,
                }
            }
        },
    }
}

/// Records the core just started for a request.
pub fn started_state(req: StartClashRequest, pid: u32) -> (r: ClashStateData)
    ensures
        r.core_type@ == req.core_type@,
        r.bin_path@ == req.bin_path@,
        r.config_dir@ == req.config_dir@,
        r.config_file@ == req.config_file@,
        r.log_file@ == req.log_file@,
        r.pid == pid,
        r.running,
{
    ClashStateData {
        core_type: req.core_type,
        bin_path: req.bin_path,
        config_dir: req.config_dir,
        config_file: req.config_file,
        log_file: req.log_file,
        pid,
        running: true,
    }
}

} // verus!
