use tagbox::logs::{apply_filter, get_log_stats, log_file_candidates, log_tail_text, missing_log_text, LogLevel};

const SAMPLE: &str = "2024 ERROR disk full\n2024 INFO started\n2024 WARN slow\n2024 ERROR again\nplain line";

#[test]
fn filter_all_keeps_everything() {
    assert_eq!(apply_filter(LogLevel::All, SAMPLE), SAMPLE);
}

#[test]
fn filter_by_level_keeps_matching_lines() {
    assert_eq!(apply_filter(LogLevel::Error, SAMPLE), "2024 ERROR disk full\n2024 ERROR again");
    assert_eq!(apply_filter(LogLevel::Warn, SAMPLE), "2024 WARN slow");
    assert_eq!(apply_filter(LogLevel::Debug, SAMPLE), "");
}

#[test]
fn level_selector_positions() {
    assert_eq!(LogLevel::from_index(0), LogLevel::All);
    assert_eq!(LogLevel::from_index(3), LogLevel::Info);
    assert_eq!(LogLevel::from_index(5), LogLevel::Trace);
    assert_eq!(LogLevel::from_index(9), LogLevel::All);
    assert_eq!(LogLevel::from_index(-1), LogLevel::All);
    assert_eq!(LogLevel::Debug.index(), 4);
    assert_eq!(LogLevel::Warn.as_str(), "WARN");
}

#[test]
fn stats_count_each_line_once() {
    let s = get_log_stats("ERROR and WARN\nWARN\nINFO\nDEBUG x\nTRACE y\nnothing\n");
    assert_eq!(s.total_lines, 6);
    assert_eq!(s.error_count, 1);
    assert_eq!(s.warn_count, 1);
    assert_eq!(s.info_count, 1);
    assert_eq!(s.debug_count, 1);
    assert_eq!(s.trace_count, 1);
    assert!(s.has_errors());
    assert!(s.has_warnings());
    let quiet = get_log_stats("all good");
    assert_eq!(quiet.total_lines, 1);
    assert!(!quiet.has_errors());
    assert!(!quiet.has_warnings());
    assert_eq!(get_log_stats("").total_lines, 0);
}

#[test]
fn tail_of_short_log() {
    let lines = vec!["a".to_string(), "b".to_string()];
    assert_eq!(log_tail_text(&lines), "a\nb\n");
    assert_eq!(log_tail_text(&Vec::new()), "");
}

#[test]
fn tail_of_long_log_keeps_last_lines() {
    let lines: Vec<String> = (0..10002).map(|i| i.to_string()).collect();
    let text = log_tail_text(&lines);
    assert!(text.starts_with("... (showing last 10000 lines)\n\n2\n3\n"));
    assert!(text.ends_with("10001\n"));
    assert_eq!(text.lines().filter(|l| !l.is_empty()).count(), 10001);
}

#[test]
fn log_locations() {
    assert_eq!(missing_log_text(), "Log file not found.");
    let c = log_file_candidates();
    assert_eq!(c.len(), 6);
    assert_eq!(c[0], "./tagbox.log");
    assert_eq!(c[4], "/tmp/tagbox.log");
}
