use xamppify::log_parser::{extract_timestamp, parse_apache_log, parse_mysql_log};

const APACHE_LINES: &str = "[Sat Jun 01 12:00:00.123456 2026] [core:error] [pid 1234] boom\n\
 [Sat Jun 01 12:00:05.654321 2026] [core:info] [pid 1234] all good\n\
 [Sat Jun 01 12:00:10.111222 2026] [core:warn] [pid 1234] watch out\n\
 plain line without a timestamp\n";

#[test]
fn detects_apache_levels() {
    let parsed = parse_apache_log(APACHE_LINES, None);
    assert_eq!(parsed[0].level, "ERROR");
    assert_eq!(parsed[1].level, "INFO");
    assert_eq!(parsed[2].level, "WARN");
    assert_eq!(parsed[3].source, "Apache");
}

#[test]
fn apache_timestamp_uses_bracket_prefix() {
    let parsed = parse_apache_log(APACHE_LINES, None);
    assert_eq!(parsed[0].timestamp, "Sat Jun 01 12:00:00");
    assert_eq!(parsed[3].timestamp, "");
}

#[test]
fn limits_apache_lines_to_newest() {
    let parsed = parse_apache_log(APACHE_LINES, Some(2));
    assert_eq!(parsed.len(), 2);
    assert!(parsed[0].message.contains("12:00:10"));
}

#[test]
fn mysql_log_levels_and_source() {
    let parsed = parse_mysql_log("2026-06-01 12:00:00 [ERROR] InnoDB crashed\n2026-06-01 12:00:01 [Note] started\n2026-06-01 12:00:02 [Warning] slow query\n", None);
    assert_eq!(parsed[0].level, "ERROR");
    assert_eq!(parsed[1].level, "INFO");
    assert_eq!(parsed[2].level, "WARN");
    assert!(parsed.iter().all(|line| line.source == "MySQL"));
}

#[test]
fn extract_timestamp_handles_formats() {
    assert_eq!(extract_timestamp("[Sat Jun 01 12:00:00.123456 2026] x"), Some("Sat Jun 01 12:00:00".into()));
    assert_eq!(extract_timestamp("2026-06-01 12:00:00 x"), Some("2026-06-01 12:00:00 ".into()));
    assert_eq!(extract_timestamp("short"), None);
}

#[test]
fn messages_keep_the_whole_line_and_crlf_is_dropped() {
    let parsed = parse_mysql_log("a warning here\r\nplain\n", None);
    assert_eq!(parsed.len(), 2);
    assert_eq!(parsed[0].message, "a warning here");
    assert_eq!(parsed[0].level, "WARN");
    assert_eq!(parsed[1].level, "INFO");
}

#[test]
fn apache_debug_level_and_limit_larger_than_log() {
    let parsed = parse_apache_log("[x] [debug] detail\n", Some(10));
    assert_eq!(parsed.len(), 1);
    assert_eq!(parsed[0].level, "DEBUG");
    assert_eq!(parsed[0].timestamp, "");
}

#[test]
fn parsability_check_rejects_cut_characters() {
    // 19 ASCII bytes and a two-byte character straddle the 20-byte mark.
    let line = "aaaaaaaaaaaaaaaaaaaé and more";
    assert!(!xamppify::log_parser::log_is_parsable(line, None));
    assert!(xamppify::log_parser::log_is_parsable(APACHE_LINES, None));
}
