use clash_verge::logger::Logger;

#[test]
fn repeated_lines_are_folded() {
    let mut log = Logger::new();
    log.set_log("a".to_string());
    log.set_log("a".to_string());
    assert_eq!(log.get_log(), vec!["[x2] a".to_string()]);
    log.set_log("a".to_string());
    assert_eq!(log.get_log(), vec!["[x2] a".to_string(), "a".to_string()]);
    log.set_log("b".to_string());
    assert_eq!(log.get_log().len(), 3);
}

#[test]
fn counter_prefix_with_closing_bracket_counts_up() {
    let mut log = Logger::new();
    log.set_log("[x4]] a".to_string());
    log.set_log("a".to_string());
    assert_eq!(log.get_log(), vec!["[x5] a".to_string()]);
    let mut other = Logger::new();
    other.set_log("[xz]] a".to_string());
    other.set_log("a".to_string());
    assert_eq!(other.get_log(), vec!["[x2] a".to_string()]);
}

#[test]
fn log_keeps_at_most_one_hundred_and_one_lines() {
    let mut log = Logger::new();
    for i in 0..250 {
        log.set_log(format!("line {i}"));
    }
    let lines = log.get_log();
    assert_eq!(lines.len(), 101);
    assert_eq!(lines[0], "line 149");
    assert_eq!(lines[100], "line 249");
    log.clear_log();
    assert!(log.get_log().is_empty());
}
