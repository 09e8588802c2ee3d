//! Assembly of the argument list that starts a node: as a leader from a
//! genesis file or a genesis hash, or as a passive node. The surrounding
//! program turns the program path and arguments into an operating-system
//! command and wires up the log file.

use vstd::prelude::*;

verus! {

/// The part a node plays in the network.
#[derive(Clone, Copy, Debug, PartialEq, Eq, Structural)]
pub enum Role {
    Passive,
    Leader,
}

/// How a starting node learns the genesis block: by its hash, or from a
/// block file.
#[derive(Clone, Copy, Debug, PartialEq, Eq, Structural)]
pub enum FromGenesis {
    Hash,
    File,
}

/// Mathematical model of the start-up file set.
pub ghost struct BackwardCompatibleConfigView {
    pub node_config_path: Seq<char>,
    pub genesis_block_path: Seq<char>,
    pub genesis_block_hash: Seq<char>,
    pub secret_model_paths: Seq<Seq<char>>,
    pub rewards_history: bool,
}

/// The file set a node is started from: where its configuration, genesis
/// block and secrets lie, and whether it should report reward history.
#[derive(Debug)]
pub struct BackwardCompatibleConfig {
    pub node_config_path: String,
    pub genesis_block_path: String,
    pub genesis_block_hash: String,
    pub secret_model_paths: Vec<String>,
    pub rewards_history: bool,
}

impl View for BackwardCompatibleConfig {
    type V = BackwardCompatibleConfigView;

    open spec fn view(&self) -> BackwardCompatibleConfigView {
        BackwardCompatibleConfigView {
            node_config_path: self.node_config_path@,
            genesis_block_path: self.genesis_block_path@,
            genesis_block_hash: self.genesis_block_hash@,
            secret_model_paths: self.secret_model_paths@.map_values(|s: String| s@),
            rewards_history: self.rewards_history,
        }
    }
}

/// One `--secret` flag per secret file, each followed by its path.
pub open spec fn secret_args(paths: Seq<Seq<char>>) -> Seq<Seq<char>>
    decreases paths.len(),
{
    if paths.len() == 0 {
        Seq::<Seq<char>>::empty()
    } else {
        secret_args(paths.drop_last()) + seq!["--secret"@, paths.last()]
    }
}

/// The reward-history flag, when asked for.
pub open spec fn reward_args(rewards_history: bool) -> Seq<Seq<char>> {
    if rewards_history {
        seq!["--rewards-report-all"@]
    } else {
        Seq::<Seq<char>>::empty()
    }
}

/// The arguments that start a leader node from a genesis block file.
pub open spec fn leader_node_args(
    config_path: Seq<char>,
    genesis_block_path: Seq<char>,
    secret_paths: Seq<Seq<char>>,
    rewards_history: bool,
) -> Seq<Seq<char>> {
    secret_args(secret_paths) + reward_args(rewards_history) + seq![
        "--config"@,
        config_path,
        "--genesis-block"@,
        genesis_block_path,
    ]
}

/// The arguments that start a leader node from a genesis block hash.
pub open spec fn leader_node_from_hash_args(
    config_path: Seq<char>,
    genesis_block_hash: Seq<char>,
    secret_paths: Seq<Seq<char>>,
    rewards_history: bool,
) -> Seq<Seq<char>> {
    secret_args(secret_paths) + reward_args(rewards_history) + seq![
        "--config"@,
        config_path,
        "--genesis-block-hash"@,
        genesis_block_hash,
    ]
}

/// The arguments that start a passive node.
pub open spec fn passive_node_args(
    config_path: Seq<char>,
    genesis_block_hash: Seq<char>,
    rewards_history: bool,
) -> Seq<Seq<char>> {
    reward_args(rewards_history) + seq![
        "--config"@,
        config_path,
        "--genesis-block-hash"@,
        genesis_block_hash,
    ]
}

/// The view of an argument list.
pub open spec fn args_view(args: Seq<String>) -> Seq<Seq<char>> {
    args.map_values(|s: String| s@)
}

/// The `--secret` flags as an argument list.
fn secret_args_exec(secret_paths: &[String]) -> (r: Vec<String>)
    ensures
        args_view(r@) == secret_args(secret_paths@.map_values(|s: String| s@)),
{
    let ghost paths = secret_paths@.map_values(|s: String| s@);
    let mut args: Vec<String> = Vec::new();
    let n = secret_paths.len();
    let mut i: usize = 0;
    proof {
        assert(paths.take(0) =~= Seq::<Seq<char>>::empty());
        assert(args_view(args@) =~= secret_args(paths.take(0)));
    }
    while i < n
        invariant
            0 <= i <= n,
            n == secret_paths@.len(),
            paths == secret_paths@.map_values(|s: String| s@),
            args_view(args@) == secret_args(paths.take(i as int)),
        decreases n - i,
    {
        args.push("--secret".to_owned());
        args.push(secret_paths[i].clone());
        proof {
            let t1 = paths.take(i + 1);
            assert(t1.drop_last() =~= paths.take(i as int));
            assert(t1.last() == paths[i as int]);
            assert(secret_args(t1) == secret_args(t1.drop_last()) + seq![
                "--secret"@,
                t1.last(),
            ]);
            assert(args_view(args@) =~= secret_args(t1));
        }
        i = i + 1;
    }
    proof {
        assert(paths.take(n as int) =~= paths);
    }
    args
}

/// Builds start-up argument lists for the node program at a fixed path.
#[derive(Debug)]
pub struct JormungandrStarterCommands {
    jormungandr_app: String,
}

impl View for JormungandrStarterCommands {
    type V = Seq<char>;

    closed spec fn view(&self) -> Seq<char> {
        self.jormungandr_app@
    }
}

impl JormungandrStarterCommands {
    /// Creates the builder for the node program at the given path.
    pub fn from_app(app: String) -> (r: JormungandrStarterCommands)
        ensures
            r@ == app@,
    {
        Self { jormungandr_app: app }
    }

    /// The path of the node program the argument lists are for.
    pub fn app_path(&self) -> (r: &String)
        ensures
            r@ == self@,
    {
        &self.jormungandr_app
    }

    /// The arguments that start a leader node from a genesis block file.
    pub fn as_leader_node(
        &self,
        config_path: &str,
        genesis_block_path: &str,
        secret_paths: &[String],
        rewards_history: bool,
    ) -> (r: Vec<String>)
        ensures
            args_view(r@) == leader_node_args(
                config_path@,
                genesis_block_path@,
                secret_paths@.map_values(|s: String| s@),
                rewards_history,
            ),
    {
        let mut args: Vec<String> = secret_args_exec(secret_paths);
        if rewards_history {
            args.push("--rewards-report-all".to_owned());
        }
        args.push("--config".to_owned());
        args.push(config_path.to_owned());
        args.push("--genesis-block".to_owned());
        args.push(genesis_block_path.to_owned());
        proof {
            assert(args_view(args@) =~= leader_node_args(
                config_path@,
                genesis_block_path@,
                secret_paths@.map_values(|s: String| s@),
                rewards_history,
            ));
        }
        args
    }

    /// The arguments that start a leader node from a genesis block hash.
    pub fn as_leader_node_from_hash(
        &self,
        config_path: &str,
        genesis_block_hash: &str,
        secret_paths: &[String],
        rewards_history: bool,
    ) -> (r: Vec<String>)
        ensures
            args_view(r@) == leader_node_from_hash_args(
                config_path@,
                genesis_block_hash@,
                secret_paths@.map_values(|s: String| s@),
                rewards_history,
            ),
    {
        let mut args: Vec<String> = secret_args_exec(secret_paths);
        if rewards_history {
            args.push("--rewards-report-all".to_owned());
        }
        args.push("--config".to_owned());
        args.push(config_path.to_owned());
        args.push("--genesis-block-hash".to_owned());
        args.push(genesis_block_hash.to_owned());
        proof {
            assert(args_view(args@) =~= leader_node_from_hash_args(
                config_path@,
                genesis_block_hash@,
                secret_paths@.map_values(|s: String| s@),
                rewards_history,
            ));
        }
        args
    }

    /// The arguments that start a passive node.
    pub fn as_passive_node(
        &self,
        config_path: &str,
        genesis_block_hash: &str,
        rewards_history: bool,
    ) -> (r: Vec<String>)
        ensures
            args_view(r@) == passive_node_args(
                config_path@,
                genesis_block_hash@,
                rewards_history,
            ),
    {
        let mut args: Vec<String> = Vec::new();
        if rewards_history {
            args.push("--rewards-report-all".to_owned());
        }
        args.push("--config".to_owned());
        args.push(config_path.to_owned());
        args.push("--genesis-block-hash".to_owned());
        args.push(genesis_block_hash.to_owned());
        proof {
            assert(args_view(args@) =~= passive_node_args(
                config_path@,
                genesis_block_hash@,
                rewards_history,
            ));
        }
        args
    }
}

/// The program path and argument list that start a node from the given file
/// set, by its role and by how it learns the genesis block. A passive node
/// always starts from the genesis hash.
pub fn get_command(
    config: &BackwardCompatibleConfig,
    jormungandr_app_path: String,
    role: Role,
    from_genesis: FromGenesis,
) -> (r: (String, Vec<String>))
    ensures
        r.0@ == jormungandr_app_path@,
        role == Role::Passive ==> args_view(r.1@) == passive_node_args(
            config@.node_config_path,
            config@.genesis_block_hash,
            config@.rewards_history,
        ),
        role == Role::Leader && from_genesis == FromGenesis::File ==> args_view(r.1@)
            == leader_node_args(
            config@.node_config_path,
            config@.genesis_block_path,
            config@.secret_model_paths,
            config@.rewards_history,
        ),
        role == Role::Leader && from_genesis == FromGenesis::Hash ==> args_view(r.1@)
            == leader_node_from_hash_args(
            config@.node_config_path,
            config@.genesis_block_hash,
            config@.secret_model_paths,
            config@.rewards_history,
        ),
{
    let commands = JormungandrStarterCommands::from_app(jormungandr_app_path);
    let args = match (role, from_genesis) {
        (Role::Passive, _) => commands.as_passive_node(
            self_str(&config.node_config_path),
            self_str(&config.genesis_block_hash),
            config.rewards_history,
        ),
        (Role::Leader, FromGenesis::File) => commands.as_leader_node(
            self_str(&config.node_config_path),
            self_str(&config.genesis_block_path),
            config.secret_model_paths.as_slice(),
            config.rewards_history,
        ),
        (Role::Leader, FromGenesis::Hash) => commands.as_leader_node_from_hash(
            self_str(&config.node_config_path),
            self_str(&config.genesis_block_hash),
            config.secret_model_paths.as_slice(),
            config.rewards_history,
        ),
    };
    let app = commands.jormungandr_app;
    (app, args)
}

/// A string as a slice of itself.
fn self_str(s: &String) -> (r: &str)
    ensures
        r@ == s@,
{
    s.as_str()
}

} // verus!
