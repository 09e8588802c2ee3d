use jormungandr_core::commands::{
    get_command, BackwardCompatibleConfig, FromGenesis, JormungandrStarterCommands, Role,
};

fn strings(items: &[&str]) -> Vec<String> {
    items.iter().map(|s| s.to_string()).collect()
}

fn sample_config() -> BackwardCompatibleConfig {
    BackwardCompatibleConfig {
        node_config_path: "node.yaml".to_string(),
        genesis_block_path: "block0.bin".to_string(),
        genesis_block_hash: "abc123".to_string(),
        secret_model_paths: strings(&["alpha.key", "beta.key"]),
        rewards_history: false,
    }
}

#[test]
fn leader_node_arguments_in_order() {
    let commands = JormungandrStarterCommands::from_app("jormungandr".to_string());
    let args = commands.as_leader_node(
        "node.yaml",
        "block0.bin",
        &strings(&["alpha.key", "beta.key"]),
        true,
    );
    assert_eq!(
        args,
        strings(&[
            "--secret",
            "alpha.key",
            "--secret",
            "beta.key",
            "--rewards-report-all",
            "--config",
            "node.yaml",
            "--genesis-block",
            "block0.bin",
        ])
    );
    assert_eq!(commands.app_path(), "jormungandr");
}

#[test]
fn leader_node_from_hash_arguments_in_order() {
    let commands = JormungandrStarterCommands::from_app("jormungandr".to_string());
    let args = commands.as_leader_node_from_hash("node.yaml", "abc123", &strings(&[]), false);
    assert_eq!(
        args,
        strings(&["--config", "node.yaml", "--genesis-block-hash", "abc123"])
    );
}

#[test]
fn passive_node_arguments_in_order() {
    let commands = JormungandrStarterCommands::from_app("jormungandr".to_string());
    let args = commands.as_passive_node("node.yaml", "abc123", true);
    assert_eq!(
        args,
        strings(&[
            "--rewards-report-all",
            "--config",
            "node.yaml",
            "--genesis-block-hash",
            "abc123",
        ])
    );
}

#[test]
fn get_command_dispatches_on_role_and_genesis_source() {
    let config = sample_config();

    let (app, args) = get_command(&config, "jormungandr".to_string(), Role::Passive, FromGenesis::File);
    assert_eq!(app, "jormungandr");
    assert_eq!(
        args,
        strings(&["--config", "node.yaml", "--genesis-block-hash", "abc123"])
    );

    let (_, args) = get_command(&config, "jormungandr".to_string(), Role::Leader, FromGenesis::File);
    assert_eq!(
        args,
        strings(&[
            "--secret",
            "alpha.key",
            "--secret",
            "beta.key",
            "--config",
            "node.yaml",
            "--genesis-block",
            "block0.bin",
        ])
    );

    let (_, args) = get_command(&config, "jormungandr".to_string(), Role::Leader, FromGenesis::Hash);
    assert_eq!(
        args,
        strings(&[
            "--secret",
            "alpha.key",
            "--secret",
            "beta.key",
            "--config",
            "node.yaml",
            "--genesis-block-hash",
            "abc123",
        ])
    );
}

#[test]
fn roles_and_genesis_sources_are_plain_values() {
    assert_eq!(Role::Leader, Role::Leader);
    assert_ne!(Role::Leader, Role::Passive);
    assert_eq!(FromGenesis::Hash, FromGenesis::Hash);
    assert_ne!(FromGenesis::Hash, FromGenesis::File);
}
