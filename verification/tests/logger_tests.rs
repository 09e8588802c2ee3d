use jormungandr_core::logger::{JormungandrLogger, Level, LoggerError};
use jormungandr_core::time::Timestamp;

const BLOCK_MSG: &str = "block from leader event successfully stored";

fn info_line(msg: &str) -> String {
    format!(
        "{{\"msg\":\"{}\",\"level\":\"INFO\",\"ts\":\"2019-08-12T09:46:54Z\"}}",
        msg
    )
}

fn error_line(msg: &str) -> String {
    format!(
        "{{\"msg\":\"{}\",\"level\":\"ERRO\",\"ts\":\"2019-08-12T09:46:55Z\"}}",
        msg
    )
}

fn warn_line(msg: &str) -> String {
    format!(
        "{{\"msg\":\"{}\",\"level\":\"WARN\",\"ts\":\"2019-08-12T09:46:56Z\"}}",
        msg
    )
}

fn block_creation_line(hash: &str) -> String {
    block_creation_line_at(hash, "2019-08-12T09:47:00Z")
}

fn block_creation_line_at(hash: &str, ts: &str) -> String {
    format!(
        "{{\"msg\":\"{}\",\"level\":\"INFO\",\"ts\":\"{}\",\"task\":\"block\",\"hash\":\"{}\"}}",
        BLOCK_MSG, ts, hash
    )
}

fn logger_from(lines: Vec<String>) -> JormungandrLogger {
    JormungandrLogger::new("node.log".to_string(), Some(lines))
}

#[test]
fn get_log_entries_keeps_only_parseable_lines() {
    let logger = logger_from(vec![
        info_line("bootstrapped"),
        "not json at all".to_string(),
        error_line("something broke"),
    ]);
    let entries = logger.get_log_entries();
    assert_eq!(entries.len(), 2);
    assert_eq!(entries[0].msg, "bootstrapped");
    assert_eq!(entries[0].level, Level::INFO);
    assert_eq!(entries[1].msg, "something broke");
    assert_eq!(entries[1].level, Level::ERRO);
}

#[test]
fn entry_fields_are_extracted() {
    let line = format!(
        "{{\"msg\":\"peer dropped\",\"level\":\"WARN\",\"ts\":\"2019-08-12T09:46:54Z\",\"reason\":\"timeout hit\",\"error\":\"connection refused\",\"peer_addr\":\"10.0.0.1\"}}"
    );
    let logger = logger_from(vec![line]);
    let entries = logger.get_log_entries();
    assert_eq!(entries.len(), 1);
    let entry = &entries[0];
    assert_eq!(entry.level, Level::WARN);
    assert_eq!(entry.ts, "2019-08-12T09:46:54Z");
    assert_eq!(entry.reason.as_deref(), Some("timeout hit"));
    assert_eq!(entry.peer_addr.as_deref(), Some("10.0.0.1"));
    assert!(entry.reason_contains("timeout"));
    assert!(!entry.reason_contains("quota"));
    assert!(entry.error_contains("refused"));
    assert!(!entry.error_contains("reset"));
}

#[test]
fn is_error_line_classifies_by_severity() {
    let logger = logger_from(vec![]);
    assert!(logger.is_error_line(&error_line("boom")));
    assert!(!logger.is_error_line(&info_line("fine")));
    assert!(!logger.is_error_line("garbage"));
    assert!(logger.is_warn_line(&warn_line("careful")));
    assert!(!logger.is_warn_line(&error_line("boom")));
    assert!(logger.is_error_line_or_invalid("garbage"));
    assert!(logger.is_error_line_or_invalid(&error_line("boom")));
    assert!(!logger.is_error_line_or_invalid(&info_line("fine")));
}

#[test]
fn line_filters_return_matching_lines() {
    let lines = vec![
        info_line("one"),
        error_line("two"),
        "junk".to_string(),
        warn_line("three"),
    ];
    let logger = logger_from(lines.clone());
    assert_eq!(logger.get_lines_with_error(), vec![lines[1].clone()]);
    assert_eq!(logger.get_lines_with_warn(), vec![lines[3].clone()]);
    assert_eq!(
        logger.get_lines_with_error_and_invalid(),
        vec![lines[1].clone(), lines[2].clone()]
    );
    assert_eq!(
        logger.get_lines_with_error_and_warn(),
        vec![lines[1].clone(), lines[3].clone()]
    );
}

#[test]
fn contains_error_sees_error_lines_and_panics() {
    let clean = logger_from(vec![info_line("all good")]);
    assert_eq!(clean.contains_error().unwrap(), false);

    let with_error = logger_from(vec![info_line("ok"), error_line("bad")]);
    assert_eq!(with_error.contains_error().unwrap(), true);

    let with_panic = logger_from(vec!["thread panicked at main".to_string()]);
    assert_eq!(with_panic.contains_error().unwrap(), true);
}

#[test]
fn missing_log_file_is_reported() {
    let logger = JormungandrLogger::new("gone.log".to_string(), None);
    assert!(logger.verify_file_exists().is_err());
    match logger.contains_error() {
        Err(LoggerError::LogFileDoesNotExists { log_file }) => {
            assert_eq!(log_file, "gone.log");
        }
        other => panic!("expected the missing-file failure, got {:?}", other.is_ok()),
    }
    assert!(logger.contains_message("anything").is_err());
    assert!(logger.message_logged_multiple_times("anything", 1).is_err());
}

#[test]
fn contains_message_searches_entry_messages() {
    let logger = logger_from(vec![
        info_line("genesis block fetched"),
        error_line("peer misbehaved"),
    ]);
    assert_eq!(logger.contains_message("genesis block").unwrap(), true);
    assert_eq!(logger.contains_message("misbehaved").unwrap(), true);
    assert_eq!(logger.contains_message("no such text").unwrap(), false);
}

#[test]
fn message_logged_multiple_times_counts_entries() {
    let logger = logger_from(vec![
        info_line("retrying"),
        info_line("retrying"),
        info_line("something else"),
    ]);
    assert_eq!(logger.message_logged_multiple_times("retrying", 2).unwrap(), true);
    assert_eq!(logger.message_logged_multiple_times("retrying", 3).unwrap(), false);
}

#[test]
fn created_blocks_are_counted() {
    let logger = logger_from(vec![
        block_creation_line("aa11"),
        info_line("noise"),
        block_creation_line("bb22"),
        // Same message without the block task: not a creation entry.
        info_line(BLOCK_MSG),
    ]);
    assert_eq!(logger.get_created_blocks_counter(), 2);
    let created = logger.filter_entries_with_block_creation();
    assert_eq!(created.len(), 2);
    assert_eq!(created[0].hash.as_deref(), Some("aa11"));
    assert_eq!(created[1].hash.as_deref(), Some("bb22"));
    assert_eq!(
        logger.get_created_blocks_hashes(),
        vec!["aa11".to_string(), "bb22".to_string()]
    );
}

#[test]
fn get_log_content_joins_lines() {
    let logger = logger_from(vec!["first".to_string(), "second".to_string()]);
    assert_eq!(logger.get_log_content(), "first\nsecond");
    assert_eq!(logger.get_lines_from_log(), vec!["first".to_string(), "second".to_string()]);
}

#[test]
fn raw_log_contains_any_of_searches_the_joined_text() {
    let logger = logger_from(vec!["error 87 happened".to_string(), "fine".to_string()]);
    assert_eq!(
        logger.raw_log_contains_any_of(&["error 98", "error 87"]).unwrap(),
        true
    );
    assert_eq!(logger.raw_log_contains_any_of(&["error 98"]).unwrap(), false);
    assert_eq!(logger.raw_log_contains_any_of(&[]).unwrap(), false);
}

#[test]
fn get_error_indicators_names_the_panic_marker() {
    let indicators = JormungandrLogger::get_error_indicators();
    assert_eq!(indicators, vec!["panicked"]);
}

#[test]
fn is_later_than_orders_entries_by_timestamp() {
    let logger = logger_from(vec![info_line("x")]);
    let entries = logger.get_log_entries();
    let entry = &entries[0];
    // The entry carries 2019-08-12T09:46:54Z.
    let earlier = Timestamp {
        year: 2019,
        month: 8,
        day: 12,
        hour: 9,
        minute: 46,
        second: 53,
        nanos: 0,
    };
    let same = Timestamp { second: 54, ..earlier };
    let later = Timestamp { second: 55, ..earlier };
    assert!(entry.is_later_than(&earlier));
    assert!(entry.is_later_than(&same));
    assert!(!entry.is_later_than(&later));
}

#[test]
fn created_blocks_after_a_moment_are_filtered_by_timestamp() {
    let logger = logger_from(vec![
        block_creation_line_at("aa11", "2019-08-12T09:47:00Z"),
        block_creation_line_at("bb22", "2019-08-12T09:48:00Z"),
        block_creation_line_at("cc33", "2019-08-12T09:49:00Z"),
    ]);
    let cutoff = Timestamp {
        year: 2019,
        month: 8,
        day: 12,
        hour: 9,
        minute: 48,
        second: 0,
        nanos: 0,
    };
    assert_eq!(
        logger.get_created_blocks_hashes_after(&cutoff),
        vec!["bb22".to_string(), "cc33".to_string()]
    );
}
