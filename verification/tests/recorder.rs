use clash_verge::debug_recorder::{
    append_with_keyword, collect_core_logs, debug_log_file_name, debug_log_path, service_log_cursor, DebugRecorder,
};

#[test]
fn debug_filename_format() {
    let stamp = chrono::Local::now().format("%Y%m%d-%H%M%S").to_string();
    let mut r = DebugRecorder::new();
    let started = r.start("/tmp/logs", &stamp, '/');
    let p = started.path.expect("path");
    let name = std::path::Path::new(&p).file_name().unwrap().to_string_lossy().to_string();
    assert!(name.starts_with("debug-"));
    assert!(name.ends_with(".log"));
}

#[test]
fn debug_file_name_is_stamped() {
    assert_eq!(debug_log_file_name("20240102-030405"), "debug-20240102-030405.log");
}

#[test]
fn debug_log_path_joins_dir_and_name() {
    assert_eq!(debug_log_path("/tmp/logs", "1", '/'), "/tmp/logs/debug-1.log");
    assert_eq!(debug_log_path("/tmp/logs/", "1", '/'), "/tmp/logs/debug-1.log");
    assert_eq!(debug_log_path("", "1", '/'), "debug-1.log");
    assert_eq!(debug_log_path("C:\\logs", "1", '\\'), "C:\\logs\\debug-1.log");
    assert_eq!(debug_log_path("C:\\logs\\", "1", '\\'), "C:\\logs\\debug-1.log");
}

#[test]
fn recorder_start_and_stop() {
    let mut r = DebugRecorder::new();
    assert!(!r.status().recording);
    let idle_stop = r.stop();
    assert!(!idle_stop.stopped && !idle_stop.started && idle_stop.path.is_none());
    let started = r.start("/tmp", "1", '/');
    assert!(started.started);
    assert_eq!(started.path.as_deref(), Some("/tmp/debug-1.log"));
    let again = r.start("/tmp", "2", '/');
    assert!(!again.started);
    assert_eq!(again.path.as_deref(), Some("/tmp/debug-1.log"));
    let stopped = r.stop();
    assert!(stopped.stopped);
    assert_eq!(stopped.path.as_deref(), Some("/tmp/debug-1.log"));
    let status = r.status();
    assert!(!status.recording);
    assert_eq!(status.path.as_deref(), Some("/tmp/debug-1.log"));
}

#[test]
fn core_logs_are_collected_once() {
    let logs = vec!["a".to_string(), "b".to_string(), "c".to_string()];
    let mut seen = 0usize;
    assert_eq!(collect_core_logs(&logs, &mut seen), logs);
    assert_eq!(seen, 3);
    assert!(collect_core_logs(&logs, &mut seen).is_empty());
    let shorter = vec!["x".to_string()];
    assert_eq!(collect_core_logs(&shorter, &mut seen), shorter);
    assert_eq!(seen, 1);
}

#[test]
fn keyword_lines_are_flagged() {
    assert_eq!(append_with_keyword("[core]", "all fine"), vec!["[core] all fine".to_string()]);
    assert_eq!(
        append_with_keyword("[service]", "x: dns resolve failed"),
        vec!["[service] x: dns resolve failed".to_string(), "[keyword-hit] x: dns resolve failed".to_string()]
    );
}

#[test]
fn service_log_cursor_resets() {
    let same = service_log_cursor(Some("a.log"), 10, "a.log", 20);
    assert!(!same.switched && !same.truncated);
    assert_eq!(same.offset, 10);
    let switched = service_log_cursor(Some("a.log"), 10, "b.log", 20);
    assert!(switched.switched && !switched.truncated);
    assert_eq!(switched.offset, 0);
    assert_eq!(switched.path.as_deref(), Some("b.log"));
    let truncated = service_log_cursor(Some("a.log"), 30, "a.log", 20);
    assert!(truncated.truncated);
    assert_eq!(truncated.offset, 0);
}
