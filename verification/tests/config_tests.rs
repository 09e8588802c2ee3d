use jormungandr_core::config::{
    Log, LogEntry, LogOutput, Mempool, NodeConfigBuilder, Policy, TrustedPeer,
};

fn builder() -> NodeConfigBuilder {
    NodeConfigBuilder::new(8080, 9000, "/tmp/node/log.log".to_string())
}

#[test]
fn new_builder_formats_the_default_addresses() {
    let b = builder();
    assert_eq!(b.rest.listen, "127.0.0.1:8080");
    assert_eq!(b.p2p.public_address, "/ip4/127.0.0.1/tcp/9000");
}

#[test]
fn new_builder_starts_with_the_documented_defaults() {
    let b = builder();
    assert!(b.storage.is_none());
    let log = b.log.as_ref().expect("a default log section");
    assert_eq!(log.0.len(), 1);
    assert_eq!(log.0[0].format, "json");
    assert_eq!(log.0[0].level, "trace");
    match &log.0[0].output {
        LogOutput::File(path) => assert_eq!(path, "/tmp/node/log.log"),
        other => panic!("expected a file output, got {:?}", other),
    }
    assert!(b.p2p.trusted_peers.is_empty());
    assert!(b.p2p.listen_address.is_none());
    let topics = b.p2p.topics_of_interest.as_ref().unwrap();
    assert_eq!(topics.messages, "high");
    assert_eq!(topics.blocks, "high");
    assert!(!b.p2p.allow_private_addresses);
    let policy = b.p2p.policy.as_ref().unwrap();
    assert_eq!(policy.quarantine_duration.unwrap().secs, 1);
    assert_eq!(policy.quarantine_duration.unwrap().nanos, 0);
    assert!(policy.quarantine_whitelist.is_none());
    assert_eq!(b.mempool.unwrap(), Mempool::default());
    assert!(!b.explorer.enabled);
}

#[test]
fn builder_setters_change_their_section() {
    let mut b = builder();
    b.with_explorer();
    assert!(b.explorer.enabled);

    b.with_storage("/var/storage".to_string());
    assert_eq!(b.storage.as_deref(), Some("/var/storage"));

    b.with_public_address("/ip4/10.0.0.1/tcp/4000".to_string());
    assert_eq!(b.p2p.public_address, "/ip4/10.0.0.1/tcp/4000");

    b.with_listen_address("/ip4/0.0.0.0/tcp/4000".to_string());
    assert_eq!(b.p2p.listen_address.as_deref(), Some("/ip4/0.0.0.0/tcp/4000"));

    b.with_mempool(Mempool { pool_max_entries: 5, log_max_entries: 7 });
    assert_eq!(b.mempool.unwrap().pool_max_entries, 5);

    b.with_policy(Policy { quarantine_duration: None, quarantine_whitelist: None });
    assert!(b.p2p.policy.as_ref().unwrap().quarantine_duration.is_none());

    b.with_log(Log(vec![]));
    assert_eq!(b.log.as_ref().unwrap().0.len(), 0);

    b.with_trusted_peers(vec![TrustedPeer { address: "/ip4/1.2.3.4/tcp/3000".to_string() }]);
    assert_eq!(b.p2p.trusted_peers.len(), 1);
}

#[test]
fn build_sets_bootstrap_flags_from_trusted_peers() {
    let without_peers = builder().build();
    assert_eq!(without_peers.bootstrap_from_trusted_peers, Some(false));
    assert_eq!(without_peers.skip_bootstrap, Some(true));

    let mut b = builder();
    b.with_trusted_peers(vec![TrustedPeer { address: "/ip4/1.2.3.4/tcp/3000".to_string() }]);
    let with_peers = b.build();
    assert_eq!(with_peers.bootstrap_from_trusted_peers, Some(true));
    assert_eq!(with_peers.skip_bootstrap, Some(false));
    assert_eq!(with_peers.rest.listen, "127.0.0.1:8080");
    assert_eq!(with_peers.p2p.trusted_peers.len(), 1);
}

#[test]
fn log_file_path_finds_the_first_file_output() {
    let log = Log(vec![
        LogEntry {
            format: "plain".to_string(),
            level: "info".to_string(),
            output: LogOutput::Stdout,
        },
        LogEntry {
            format: "json".to_string(),
            level: "trace".to_string(),
            output: LogOutput::File("a.log".to_string()),
        },
        LogEntry {
            format: "json".to_string(),
            level: "trace".to_string(),
            output: LogOutput::File("b.log".to_string()),
        },
    ]);
    assert_eq!(log.file_path().map(|s| s.as_str()), Some("a.log"));
}

#[test]
fn log_file_path_is_none_without_file_outputs() {
    let log = Log(vec![LogEntry {
        format: "plain".to_string(),
        level: "info".to_string(),
        output: LogOutput::Stderr,
    }]);
    assert!(log.file_path().is_none());
}

#[test]
fn update_file_path_rewrites_only_the_first_file_output() {
    let mut log = Log(vec![
        LogEntry {
            format: "plain".to_string(),
            level: "info".to_string(),
            output: LogOutput::Stdout,
        },
        LogEntry {
            format: "json".to_string(),
            level: "trace".to_string(),
            output: LogOutput::File("a.log".to_string()),
        },
        LogEntry {
            format: "json".to_string(),
            level: "trace".to_string(),
            output: LogOutput::File("b.log".to_string()),
        },
    ]);
    log.update_file_path("new.log".to_string());
    match &log.0[1].output {
        LogOutput::File(path) => assert_eq!(path, "new.log"),
        other => panic!("expected a file output, got {:?}", other),
    }
    match &log.0[2].output {
        LogOutput::File(path) => assert_eq!(path, "b.log"),
        other => panic!("expected a file output, got {:?}", other),
    }
}

#[test]
fn update_file_path_without_file_outputs_changes_nothing() {
    let mut log = Log(vec![LogEntry {
        format: "plain".to_string(),
        level: "info".to_string(),
        output: LogOutput::Stdout,
    }]);
    log.update_file_path("new.log".to_string());
    assert!(matches!(log.0[0].output, LogOutput::Stdout));
}

#[test]
fn node_config_updates_its_log_file_path() {
    let mut config = builder().build();
    assert_eq!(
        config.log_file_path().map(|s| s.as_str()),
        Some("/tmp/node/log.log")
    );
    config.update_log_file_path("moved.log".to_string());
    assert_eq!(config.log_file_path().map(|s| s.as_str()), Some("moved.log"));
}

#[test]
fn default_mempool_bounds() {
    let mempool = Mempool::default();
    assert_eq!(mempool.pool_max_entries, 10000);
    assert_eq!(mempool.log_max_entries, 100000);
}
