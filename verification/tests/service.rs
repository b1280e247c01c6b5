use clash_verge::service::{
    check_service, encode_url_path_segment, ensure_service_ready, query_service_state, read_tun_enable,
    run_core_by_service, same_windows_path, service_exists, service_ready, start_service_process, tun_stack_needs_warning,
    HealthResponse, JsonResponse, ResponseBody, ScResult, ServiceCoreAction, ServiceStateHint, begin_core_start,
    core_start_step, start_clash_body, CoreStartAction, CoreStartEvent, CoreStartPhase, CoreStartStep,
};
use clash_verge::service_host::{
    get_clash_reply, route_request, started_state, validate_start_request, HttpMethod, ServiceRoute, StartClashRequest,
};
use clash_verge::yaml::{Mapping, Yaml};

fn sc(code: i32, stdout: &str, stderr: &str) -> ScResult {
    ScResult { code, stdout: stdout.to_string(), stderr: stderr.to_string() }
}

#[test]
fn sc_results_are_read() {
    assert!(service_exists(Some(&sc(0, "", ""))));
    assert!(!service_exists(Some(&sc(1060, "", ""))));
    assert!(!service_exists(None));
    assert_eq!(query_service_state(Some(&sc(0, "STATE : 4 Running", ""))), ServiceStateHint::Running);
    assert_eq!(query_service_state(Some(&sc(0, "STATE : 2 START_PENDING", ""))), ServiceStateHint::StartPending);
    assert_eq!(query_service_state(Some(&sc(0, "STATE : 1 STOPPED", ""))), ServiceStateHint::Other);
    assert_eq!(query_service_state(Some(&sc(5, "RUNNING", ""))), ServiceStateHint::Other);
    assert_eq!(query_service_state(None), ServiceStateHint::Other);
}

#[test]
fn start_results_are_judged() {
    assert!(start_service_process(&sc(0, "", "")).is_ok());
    assert!(start_service_process(&sc(1056, "", "")).is_ok());
    assert!(start_service_process(&sc(2, "[SC] StartService FAILED 1056:", "")).is_ok());
    assert!(start_service_process(&sc(2, "", "An instance of the service is already running.")).is_ok());
    let err = start_service_process(&sc(-5, "out", "err")).unwrap_err();
    assert_eq!(
        err,
        "failed to start service process. expected service name: clash-verge-service; service binary: clash-verge-service.exe; install helper: install-service.exe; uninstall helper: uninstall-service.exe; sc.exe start exit code: -5; stdout: out; stderr: err"
    );
}

fn health(code: u64) -> HealthResponse {
    HealthResponse { code, msg: "ok".to_string(), data: None }
}

fn body(pid: Option<u32>) -> ResponseBody {
    ResponseBody {
        core_type: Some("clash-meta".to_string()),
        pid,
        running: Some(true),
        bin_path: "C:/app/clash-meta.exe".to_string(),
        config_dir: "C:/app".to_string(),
        config_file: Some("C:/app/clash-verge.yaml".to_string()),
        log_file: "C:/app/service.log".to_string(),
    }
}

#[test]
fn service_status_messages() {
    let s = check_service(false, ServiceStateHint::Other, None, None);
    assert_eq!(s.message, "service not installed.");
    assert_eq!(s.service_name, "clash-verge-service");
    let s = check_service(true, ServiceStateHint::Other, None, None);
    assert_eq!(s.message, "service installed but stopped.");
    let s = check_service(true, ServiceStateHint::Running, Some(&health(1)), None);
    assert_eq!(s.message, "service running, API not ready.");
    let clash = JsonResponse { code: 0, msg: "ok".to_string(), data: Some(body(Some(4242))) };
    let s = check_service(true, ServiceStateHint::Running, Some(&health(0)), Some(&clash));
    assert!(s.core_managed);
    assert_eq!(s.core_pid, Some(4242));
    assert_eq!(s.message, "service running, API ready, core managed by service (pid 4242).");
    let none = JsonResponse { code: 500, msg: "not started".to_string(), data: None };
    let s = check_service(true, ServiceStateHint::Running, Some(&health(0)), Some(&none));
    assert_eq!(s.message, "service running, API ready, core not managed by service.");
}

#[test]
fn readiness_rounds() {
    assert!(service_ready(ServiceStateHint::Running, Some(0)));
    assert!(!service_ready(ServiceStateHint::Running, Some(1)));
    assert!(!service_ready(ServiceStateHint::StartPending, Some(0)));
    assert_eq!(ensure_service_ready(true, ServiceStateHint::Running, true), Some(Ok(())));
    assert_eq!(ensure_service_ready(false, ServiceStateHint::Other, false), None);
    assert_eq!(
        ensure_service_ready(false, ServiceStateHint::StartPending, true),
        Some(Err("Windows service is stuck in StartPending and API 127.0.0.1:33211 is not ready.".to_string()))
    );
    assert_eq!(
        ensure_service_ready(false, ServiceStateHint::Other, true),
        Some(Err("service API 127.0.0.1:33211 is not ready after start timeout; current service state: Other".to_string()))
    );
}

#[test]
fn windows_paths_and_url_segments() {
    assert!(same_windows_path("C:/App/Clash.exe", "c:\\app\\clash.exe", None, None));
    assert!(!same_windows_path("C:/App/a.exe", "C:/App/b.exe", None, None));
    assert!(same_windows_path("x", "y", Some("C:\\A"), Some("c:/a")));
    assert!(same_windows_path("C:/A", "c:/a", Some("C:\\A"), None));
    assert_eq!(encode_url_path_segment("Hong Kong 01"), "Hong%20Kong%2001");
    assert_eq!(encode_url_path_segment("a-b_c.d~e"), "a-b_c.d~e");
    assert_eq!(encode_url_path_segment("香港"), "%E9%A6%99%E6%B8%AF");
    assert_eq!(encode_url_path_segment("/?"), "%2F%3F");
}

#[test]
fn core_reuse_decision() {
    let d = body(Some(7));
    assert_eq!(run_core_by_service(true, true, Some(&d), "clash-meta", true, true, true), ServiceCoreAction::Reuse);
    assert_eq!(run_core_by_service(false, true, Some(&d), "clash-meta", true, true, true), ServiceCoreAction::Restart);
    assert_eq!(run_core_by_service(true, true, Some(&d), "clash-meta-alpha", true, true, true), ServiceCoreAction::Restart);
    assert_eq!(run_core_by_service(true, true, Some(&d), "clash-meta", true, false, true), ServiceCoreAction::Restart);
    assert_eq!(run_core_by_service(true, false, Some(&d), "clash-meta", true, true, true), ServiceCoreAction::Start);
    assert_eq!(run_core_by_service(true, true, None, "clash-meta", true, true, true), ServiceCoreAction::Restart);
    let no_pid = body(None);
    assert_eq!(run_core_by_service(true, true, Some(&no_pid), "clash-meta", true, true, true), ServiceCoreAction::Restart);
}

#[test]
fn runtime_tun_switch_and_stack() {
    let mut tun = Mapping::new();
    tun.insert(Yaml::string("enable"), Yaml::Bool(true));
    let mut config = Mapping::new();
    config.insert(Yaml::string("tun"), Yaml::Mapping(tun));
    assert_eq!(read_tun_enable(&config), Some(true));
    assert_eq!(read_tun_enable(&Mapping::new()), None);
    assert!(tun_stack_needs_warning(true, "system"));
    assert!(!tun_stack_needs_warning(true, "gVisor"));
    assert!(!tun_stack_needs_warning(false, "system"));
}

#[test]
fn service_host_routes_and_replies() {
    assert_eq!(route_request(HttpMethod::Get, "/health", "/health"), ServiceRoute::Health);
    assert_eq!(route_request(HttpMethod::Get, "/get_clash", "/health"), ServiceRoute::GetClash);
    assert_eq!(route_request(HttpMethod::Post, "/start_clash", "/health"), ServiceRoute::StartClash);
    assert_eq!(route_request(HttpMethod::Post, "/stop_clash", "/health"), ServiceRoute::StopClash);
    assert_eq!(route_request(HttpMethod::Get, "/start_clash", "/health"), ServiceRoute::NotFound);
    assert_eq!(route_request(HttpMethod::Other, "/get_clash", "/health"), ServiceRoute::NotFound);

    let req = StartClashRequest {
        core_type: "clash-meta".to_string(),
        bin_path: "C:/b.exe".to_string(),
        config_dir: "C:/d".to_string(),
        config_file: "C:/d/c.yaml".to_string(),
        log_file: "C:/d/l.log".to_string(),
    };
    assert_eq!(validate_start_request(&req, true, true, true, true), Ok(()));
    assert_eq!(validate_start_request(&req, false, false, true, true), Err("bin_path not found: C:/b.exe".to_string()));
    assert_eq!(validate_start_request(&req, true, false, false, true), Err("config_dir not found: C:/d".to_string()));
    assert_eq!(validate_start_request(&req, true, true, false, false), Err("config_file not found: C:/d/c.yaml".to_string()));
    assert_eq!(validate_start_request(&req, true, true, true, false), Err("log_file parent not found: C:/d/l.log".to_string()));

    let mut state = None;
    let reply = get_clash_reply(&mut state, true);
    assert_eq!((reply.status, reply.code, reply.msg.as_str()), (500, 500, "clash core is not started"));
    state = Some(started_state(req, 77));
    let reply = get_clash_reply(&mut state, true);
    assert_eq!((reply.status, reply.code, reply.msg.as_str()), (200, 0, "ok"));
    assert_eq!(reply.data.map(|d| d.pid), Some(77));
    assert!(state.is_some());
    let reply = get_clash_reply(&mut state, false);
    assert_eq!((reply.status, reply.code, reply.msg.as_str()), (500, 500, "clash core is not running"));
    assert!(state.is_none());
}

fn finish_err(step: &CoreStartStep) -> Option<String> {
    match &step.action {
        CoreStartAction::Finish(Err(e)) => Some(e.clone()),
        _ => None,
    }
}

#[test]
fn core_start_begins_by_the_decision() {
    let (p, s) = begin_core_start(ServiceCoreAction::Reuse);
    assert_eq!(p, CoreStartPhase::Done);
    assert!(matches!(s.action, CoreStartAction::Finish(Ok(()))));
    let (p, s) = begin_core_start(ServiceCoreAction::Restart);
    assert_eq!(p, CoreStartPhase::Stopping);
    assert!(matches!(s.action, CoreStartAction::SendStop));
    let (p, s) = begin_core_start(ServiceCoreAction::Start);
    assert_eq!(p, CoreStartPhase::Starting);
    assert!(matches!(s.action, CoreStartAction::SendStart) && s.sleep_ms == 0);
}

#[test]
fn core_start_stops_before_starting() {
    let (p, s) = core_start_step(CoreStartPhase::Stopping, CoreStartEvent::Stopped(Ok(())), "l.log");
    assert_eq!(p, CoreStartPhase::Starting);
    assert!(matches!(s.action, CoreStartAction::SendStart));
    assert_eq!(s.sleep_ms, 1000);
    let (p, s) = core_start_step(CoreStartPhase::Stopping, CoreStartEvent::Stopped(Err("boom".to_string())), "l.log");
    assert_eq!(p, CoreStartPhase::Done);
    assert_eq!(finish_err(&s).as_deref(), Some("boom"));
}

#[test]
fn core_start_refused_by_the_service() {
    let (p, s) = core_start_step(
        CoreStartPhase::Starting,
        CoreStartEvent::StartAnswered(Ok((1, "bad config".to_string()))),
        "l.log",
    );
    assert_eq!(p, CoreStartPhase::Done);
    assert_eq!(finish_err(&s).as_deref(), Some("bad config"));
    let (_, s) = core_start_step(CoreStartPhase::Starting, CoreStartEvent::StartAnswered(Err("down".to_string())), "l");
    assert_eq!(finish_err(&s).as_deref(), Some("down"));
    let (p, s) = core_start_step(CoreStartPhase::Starting, CoreStartEvent::StartAnswered(Ok((0, "ok".to_string()))), "l");
    assert_eq!(p, CoreStartPhase::PollingPid { tries: 0 });
    assert!(matches!(s.action, CoreStartAction::PollPid));
}

#[test]
fn core_start_polls_at_most_twenty_times() {
    let mut phase = CoreStartPhase::PollingPid { tries: 0 };
    let mut asks = 1;
    loop {
        let (p, s) = core_start_step(phase, CoreStartEvent::PidPolled(None), "l.log");
        assert_eq!(s.sleep_ms, 300);
        if p == CoreStartPhase::Done {
            assert_eq!(finish_err(&s).as_deref(), Some("service did not start clash core; /get_clash has no pid"));
            break;
        }
        asks += 1;
        phase = p;
    }
    assert_eq!(asks, 20);
    let (p, s) = core_start_step(CoreStartPhase::PollingPid { tries: 3 }, CoreStartEvent::PidPolled(Some(42)), "l");
    assert_eq!(p, CoreStartPhase::PollingApi { tries: 0, pid: 42 });
    assert!(matches!(s.action, CoreStartAction::PollApi) && s.sleep_ms == 0);
    let mut phase = CoreStartPhase::PollingApi { tries: 0, pid: 42 };
    let mut asks = 1;
    let last = loop {
        let (p, s) = core_start_step(phase, CoreStartEvent::ApiPolled(false), "C:/svc.log");
        if p == CoreStartPhase::Done {
            break s;
        }
        asks += 1;
        phase = p;
    };
    assert_eq!(asks, 20);
    assert_eq!(
        finish_err(&last).as_deref(),
        Some("service started clash core (pid Some(42)) but external-controller 127.0.0.1:9097 is not ready. service log file: C:/svc.log")
    );
    let (p, s) = core_start_step(CoreStartPhase::PollingApi { tries: 5, pid: 42 }, CoreStartEvent::ApiPolled(true), "l");
    assert_eq!(p, CoreStartPhase::Done);
    assert!(matches!(s.action, CoreStartAction::Finish(Ok(()))));
}

#[test]
fn start_request_body_has_the_five_keys() {
    let body = start_clash_body("clash-meta", "C:/b.exe", "C:/d", "C:/d/c.yaml", "C:/d/l.log");
    let want = [
        ("core_type", "clash-meta"),
        ("bin_path", "C:/b.exe"),
        ("config_dir", "C:/d"),
        ("config_file", "C:/d/c.yaml"),
        ("log_file", "C:/d/l.log"),
    ];
    assert_eq!(body.len(), 5);
    for (i, (k, v)) in want.iter().enumerate() {
        assert_eq!(body[i].0, *k);
        assert_eq!(body[i].1, *v);
    }
}
