use jormungandr_core::explorer::{ExplorerStakePool, GraphQLQuery};
use jormungandr_core::setup::Config;
use jormungandr_core::text::{join_lines_exec, str_contains, str_eq, u64_to_dec_string};
use jormungandr_core::time::{parse_timestamp, Timestamp};

#[test]
fn decimal_formatting_exact_values() {
    assert_eq!(u64_to_dec_string(0), "0");
    assert_eq!(u64_to_dec_string(7), "7");
    assert_eq!(u64_to_dec_string(10), "10");
    assert_eq!(u64_to_dec_string(8080), "8080");
    assert_eq!(u64_to_dec_string(18446744073709551615), "18446744073709551615");
}

#[test]
fn substring_search() {
    assert!(str_contains("hello world", "o w"));
    assert!(str_contains("hello world", ""));
    assert!(str_contains("hello world", "hello world"));
    assert!(!str_contains("hello world", "worlds"));
    assert!(!str_contains("", "x"));
}

#[test]
fn string_equality() {
    assert!(str_eq("abc", "abc"));
    assert!(!str_eq("abc", "abd"));
    assert!(!str_eq("abc", "ab"));
}

#[test]
fn lines_are_joined_with_newlines() {
    assert_eq!(join_lines_exec(&vec![]), "");
    assert_eq!(join_lines_exec(&vec!["only".to_string()]), "only");
    assert_eq!(
        join_lines_exec(&vec!["a".to_string(), "b".to_string(), "c".to_string()]),
        "a\nb\nc"
    );
}

#[test]
fn timestamps_parse_exactly() {
    let t = parse_timestamp("2019-08-12T09:46:54Z").expect("a bare timestamp parses");
    assert_eq!(
        t,
        Timestamp { year: 2019, month: 8, day: 12, hour: 9, minute: 46, second: 54, nanos: 0 }
    );

    let t = parse_timestamp("2019-08-12T09:46:54.871354Z").expect("a fraction parses");
    assert_eq!(t.nanos, 871_354_000);

    let t = parse_timestamp("2019-08-12T09:46:54.5Z").expect("one digit parses");
    assert_eq!(t.nanos, 500_000_000);
}

#[test]
fn malformed_timestamps_are_rejected() {
    assert!(parse_timestamp("").is_none());
    assert!(parse_timestamp("2019-08-12T09:46:54").is_none());
    assert!(parse_timestamp("2019-08-12 09:46:54Z").is_none());
    assert!(parse_timestamp("2019-13-12T09:46:54Z").is_none());
    assert!(parse_timestamp("2019-00-12T09:46:54Z").is_none());
    assert!(parse_timestamp("2019-08-32T09:46:54Z").is_none());
    assert!(parse_timestamp("2019-08-12T24:46:54Z").is_none());
    assert!(parse_timestamp("2019-08-12T09:46:54.Z").is_none());
    assert!(parse_timestamp("2019-08-12T09:46:54.1234567890Z").is_none());
    assert!(parse_timestamp("2019-08-12T09:46:54+00:00").is_none());
}

#[test]
fn timestamp_ordering_compares_fields() {
    let base = Timestamp { year: 2019, month: 8, day: 12, hour: 9, minute: 46, second: 54, nanos: 0 };
    assert!(base.is_not_before(&base));
    assert!(Timestamp { nanos: 1, ..base }.is_not_before(&base));
    assert!(!base.is_not_before(&Timestamp { nanos: 1, ..base }));
    assert!(Timestamp { year: 2020, ..base }.is_not_before(&base));
    assert!(!Timestamp { month: 7, ..base }.is_not_before(&base));
    // A later field never outweighs an earlier one.
    assert!(Timestamp { day: 13, hour: 0, ..base }.is_not_before(&base));
}

#[test]
fn stake_pool_query_embeds_the_identifier() {
    let query: GraphQLQuery = ExplorerStakePool::query_by_id("deadbeef");
    assert_eq!(
        query.query,
        "{ stakePool(id: \"deadbeef\") { id registration { pool { id } } retirement { poolId } } }"
    );
}

#[test]
fn local_node_endpoint() {
    let config = Config::attach_to_local_node(3001);
    assert_eq!(config.host(), "127.0.0.1");
    assert_eq!(config.port(), 3001);
}
