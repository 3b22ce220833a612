use nanobot_supervisor::stats::{classify_line, classify_upper, get_log_statistics, LogLevel, LogStatistics};

#[test]
fn upper_case_lines_are_classified_by_first_match() {
    assert_eq!(classify_upper("2024-01-01 | DEBUG | x"), LogLevel::Debug);
    assert_eq!(classify_upper("INFO AND ERROR"), LogLevel::Info);
    assert_eq!(classify_upper("WARNING: LOW DISK"), LogLevel::Warn);
    assert_eq!(classify_upper("WARN"), LogLevel::Warn);
    assert_eq!(classify_upper("ERROR"), LogLevel::Error);
    assert_eq!(classify_upper("debug"), LogLevel::Other);
    assert_eq!(classify_upper(""), LogLevel::Other);
}

#[test]
fn lines_are_judged_in_upper_case() {
    assert_eq!(classify_line("a debug message"), LogLevel::Debug);
    assert_eq!(classify_line("Warning: slow"), LogLevel::Warn);
    assert_eq!(classify_line("an error"), LogLevel::Error);
    assert_eq!(classify_line("plain"), LogLevel::Other);
}

#[test]
fn statistics_count_each_severity() {
    let lines: Vec<String> = ["x | DEBUG | a", "x | INFO | b", "x | info | c", "warn d", "Error e", "f"]
        .iter()
        .map(|s| s.to_string())
        .collect();
    assert_eq!(
        get_log_statistics(&lines),
        LogStatistics { total: 6, debug: 1, info: 2, warn: 1, error: 1 }
    );
    assert_eq!(
        get_log_statistics(&Vec::new()),
        LogStatistics { total: 0, debug: 0, info: 0, warn: 0, error: 0 }
    );
}
