//! The node configuration model and its builder: logging outputs, REST and
//! peer-to-peer settings, mempool and explorer switches.
//!
//! Addresses and paths are held as plain strings; the surrounding program
//! converts them to richer address types where it needs to.

use vstd::prelude::*;
use vstd::string::StringExecFns;

use crate::text::{dec_str_of, u64_to_dec_string};

verus! {

/// Mathematical model of one logging output.
pub ghost enum LogOutputView {
    Stdout,
    Stderr,
    File(Seq<char>),
}

/// Where one logging destination writes: standard output, standard error,
/// or a file at the given path.
#[derive(Debug)]
pub enum LogOutput {
    Stdout,
    Stderr,
    File(String),
}

impl View for LogOutput {
    type V = LogOutputView;

    open spec fn view(&self) -> LogOutputView {
        match self {
            LogOutput::Stdout => LogOutputView::Stdout,
            LogOutput::Stderr => LogOutputView::Stderr,
            LogOutput::File(path) => LogOutputView::File(path@),
        }
    }
}

impl Clone for LogOutput {
    fn clone(&self) -> (r: Self)
        ensures
            r@ == self@,
    {
        match self {
            LogOutput::Stdout => LogOutput::Stdout,
            LogOutput::Stderr => LogOutput::Stderr,
            LogOutput::File(path) => LogOutput::File(path.clone()),
        }
    }
}

/// Mathematical model of one logging destination.
pub ghost struct LogEntryView {
    pub format: Seq<char>,
    pub level: Seq<char>,
    pub output: LogOutputView,
}

/// One logging destination: its format, level and output.
#[derive(Debug)]
pub struct LogEntry {
    pub format: String,
    pub level: String,
    pub output: LogOutput,
}

impl View for LogEntry {
    type V = LogEntryView;

    open spec fn view(&self) -> LogEntryView {
        LogEntryView { format: self.format@, level: self.level@, output: self.output@ }
    }
}

impl Clone for LogEntry {
    fn clone(&self) -> (r: Self)
        ensures
            r@ == self@,
    {
        LogEntry {
            format: self.format.clone(),
            level: self.level.clone(),
            output: self.output.clone(),
        }
    }
}

/// The logging section of the node configuration: a list of destinations.
#[derive(Debug)]
pub struct Log(pub Vec<LogEntry>);

impl View for Log {
    type V = Seq<LogEntryView>;

    open spec fn view(&self) -> Seq<LogEntryView> {
        self.0@.map_values(|e: LogEntry| e@)
    }
}

impl Clone for Log {
    fn clone(&self) -> (r: Self)
        ensures
            r@ == self@,
    {
        let mut entries: Vec<LogEntry> = Vec::new();
        let n = self.0.len();
        let mut i: usize = 0;
        while i < n
            invariant
                0 <= i <= n,
                n == self.0.len(),
                entries@.len() == i,
                forall|j: int| 0 <= j < i ==> entries@[j]@ == self.0@[j]@,
            decreases n - i,
        {
            entries.push(self.0[i].clone());
            i = i + 1;
        }
        let r = Log(entries);
        proof {
            assert(r@ =~= self@);
        }
        r
    }
}

/// The position of the first file destination at or after `i`, or `-1`.
pub open spec fn first_file_from(entries: Seq<LogEntryView>, i: int) -> int
    decreases entries.len() - i,
{
    if i < 0 || i >= entries.len() {
        -1
    } else if entries[i].output is File {
        i
    } else {
        first_file_from(entries, i + 1)
    }
}

/// The position of the first file destination, or `-1` if no destination
/// writes to a file.
pub open spec fn first_file_index(entries: Seq<LogEntryView>) -> int {
    first_file_from(entries, 0)
}

/// What `first_file_from` returns: either `-1` and no destination from `i`
/// on is a file, or the first file destination at or after `i`.
pub proof fn lemma_first_file_from(entries: Seq<LogEntryView>, i: int)
    requires
        0 <= i <= entries.len(),
    ensures
        first_file_from(entries, i) == -1 ==> forall|j: int|
            i <= j < entries.len() ==> !(entries[j].output is File),
        first_file_from(entries, i) != -1 ==> {
            let r = first_file_from(entries, i);
            &&& i <= r < entries.len()
            &&& entries[r].output is File
            &&& forall|j: int| i <= j < r ==> !(entries[j].output is File)
        },
    decreases entries.len() - i,
{
    if i < entries.len() && !(entries[i].output is File) {
        lemma_first_file_from(entries, i + 1);
    }
}

/// The path of the first file destination, if any.
pub open spec fn spec_file_path(entries: Seq<LogEntryView>) -> Option<Seq<char>> {
    let i = first_file_index(entries);
    if i >= 0 {
        Some(entries[i].output->File_0)
    } else {
        None
    }
}

/// The log section with the first file destination's path replaced; the
/// section unchanged when no destination writes to a file.
pub open spec fn spec_update_file_path(entries: Seq<LogEntryView>, path: Seq<char>) -> Seq<
    LogEntryView,
> {
    let i = first_file_index(entries);
    if i >= 0 {
        entries.update(
            i,
            LogEntryView {
                format: entries[i].format,
                level: entries[i].level,
                output: LogOutputView::File(path),
            },
        )
    } else {
        entries
    }
}

impl Log {
    /// The path of the first file destination, if any.
    pub fn file_path(&self) -> (r: Option<&String>)
        ensures
            r matches Some(p) ==> Some(p@) == spec_file_path(self@),
            (r is Some) == (spec_file_path(self@) is Some),
    {
        let n = self.0.len();
        let mut i: usize = 0;
        while i < n
            invariant
                0 <= i <= n,
                n == self.0.len(),
                forall|j: int| 0 <= j < i ==> !(self@[j].output is File),
            decreases n - i,
        {
            match &self.0[i].output {
                LogOutput::File(path) => {
                    proof {
                        lemma_first_file_from(self@, 0);
                        let ff = first_file_index(self@);
                        assert(self@[i as int].output is File);
                        assert(ff != -1);
                        assert(!(ff < i as int)) by {
                            if 0 <= ff < i as int {
                                assert(!(self@[ff].output is File));
                            }
                        }
                        assert(!(ff > i as int)) by {
                            if ff > i as int {
                                assert(!(self@[i as int].output is File));
                            }
                        }
                        assert(ff == i as int);
                    }
                    return Some(path);
                },
                _ => {},
            }
            i = i + 1;
        }
        proof {
            lemma_first_file_from(self@, 0);
            let ff = first_file_index(self@);
            if ff != -1 {
                assert(!(self@[ff].output is File));
            }
        }
        None
    }

    /// Finds the first file destination and updates its path to the one
    /// given. If no destination writes to a file, this does nothing.
    pub fn update_file_path(&mut self, path: String)
        ensures
            final(self)@ == spec_update_file_path(old(self)@, path@),
    {
        let ghost before = self@;
        let n = self.0.len();
        let mut i: usize = 0;
        while i < n
            invariant
                0 <= i <= n,
                n == self.0.len(),
                before == old(self)@,
                self@ == before,
                forall|j: int| 0 <= j < i ==> !(before[j].output is File),
            decreases n - i,
        {
            let is_file = match &self.0[i].output {
                LogOutput::File(_) => true,
                _ => false,
            };
            if is_file {
                let entry = &mut self.0[i];
                entry.output = LogOutput::File(path);
                proof {
                    lemma_first_file_from(before, 0);
                    let ff = first_file_index(before);
                    assert(before[i as int].output is File);
                    assert(ff != -1);
                    assert(!(ff < i as int)) by {
                        if 0 <= ff < i as int {
                            assert(!(before[ff].output is File));
                        }
                    }
                    assert(!(ff > i as int)) by {
                        if ff > i as int {
                            assert(!(before[i as int].output is File));
                        }
                    }
                    assert(ff == i as int);
                    assert(self@ =~= spec_update_file_path(before, path@));
                }
                return;
            }
            i = i + 1;
        }
        proof {
            lemma_first_file_from(before, 0);
            let ff = first_file_index(before);
            if ff != -1 {
                assert(!(before[ff].output is File));
            }
            assert(self@ =~= spec_update_file_path(before, path@));
        }
    }
}

/// A span of time: whole seconds and a nanosecond remainder.
#[derive(Debug, Clone, Copy, PartialEq, Eq, Structural)]
pub struct Duration {
    pub secs: u64,
    pub nanos: u32,
}

impl Duration {
    /// Creates the span from whole seconds and a nanosecond remainder.
    pub fn new(secs: u64, nanos: u32) -> (r: Duration)
        ensures
            r == (Duration { secs, nanos }),
    {
        Duration { secs, nanos }
    }
}

/// The mempool section: how many fragments the pool and its log may hold.
#[derive(Debug, Clone, Copy, PartialEq, Eq, Structural)]
pub struct Mempool {
    pub pool_max_entries: u64,
    pub log_max_entries: u64,
}

impl Default for Mempool {
    /// The default mempool bounds.
    fn default() -> (r: Mempool)
        ensures
            r == (Mempool { pool_max_entries: 10000, log_max_entries: 100000 }),
    {
        Mempool { pool_max_entries: 10000, log_max_entries: 100000 }
    }
}

/// The explorer section: whether the explorer API is served.
#[derive(Debug, Clone, Copy, PartialEq, Eq, Structural)]
pub struct Explorer {
    pub enabled: bool,
}

/// Mathematical model of the gossip interest levels.
pub ghost struct TopicsOfInterestView {
    pub messages: Seq<char>,
    pub blocks: Seq<char>,
}

/// How interested the node is in the gossip topics.
#[derive(Debug)]
pub struct TopicsOfInterest {
    pub messages: String,
    pub blocks: String,
}

impl View for TopicsOfInterest {
    type V = TopicsOfInterestView;

    open spec fn view(&self) -> TopicsOfInterestView {
        TopicsOfInterestView { messages: self.messages@, blocks: self.blocks@ }
    }
}

impl Clone for TopicsOfInterest {
    fn clone(&self) -> (r: Self)
        ensures
            r@ == self@,
    {
        TopicsOfInterest { messages: self.messages.clone(), blocks: self.blocks.clone() }
    }
}

/// Mathematical model of the quarantine policy.
pub ghost struct PolicyView {
    pub quarantine_duration: Option<Duration>,
    pub quarantine_whitelist: Option<Seq<Seq<char>>>,
}

/// The quarantine policy for misbehaving peers.
#[derive(Debug)]
pub struct Policy {
    pub quarantine_duration: Option<Duration>,
    pub quarantine_whitelist: Option<Vec<String>>,
}

impl View for Policy {
    type V = PolicyView;

    open spec fn view(&self) -> PolicyView {
        PolicyView {
            quarantine_duration: self.quarantine_duration,
            quarantine_whitelist: match self.quarantine_whitelist {
                Some(list) => Some(list@.map_values(|s: String| s@)),
                None => None,
            },
        }
    }
}

/// Copies a list of strings.
fn clone_string_vec(v: &Vec<String>) -> (r: Vec<String>)
    ensures
        r@.map_values(|s: String| s@) == v@.map_values(|s: String| s@),
{
    let mut out: Vec<String> = Vec::new();
    let n = v.len();
    let mut i: usize = 0;
    while i < n
        invariant
            0 <= i <= n,
            n == v.len(),
            out@.len() == i,
            forall|j: int| 0 <= j < i ==> out@[j]@ == v@[j]@,
        decreases n - i,
    {
        out.push(v[i].clone());
        i = i + 1;
    }
    proof {
        assert(out@.map_values(|s: String| s@) =~= v@.map_values(|s: String| s@));
    }
    out
}

impl Clone for Policy {
    fn clone(&self) -> (r: Self)
        ensures
            r@ == self@,
    {
        Policy {
            quarantine_duration: self.quarantine_duration,
            quarantine_whitelist: match &self.quarantine_whitelist {
                Some(list) => Some(clone_string_vec(list)),
                None => None,
            },
        }
    }
}

/// Mathematical model of one trusted peer.
pub ghost struct TrustedPeerView {
    pub address: Seq<char>,
}

/// A peer the node bootstraps from, by its gossip address.
#[derive(Debug)]
pub struct TrustedPeer {
    pub address: String,
}

impl View for TrustedPeer {
    type V = TrustedPeerView;

    open spec fn view(&self) -> TrustedPeerView {
        TrustedPeerView { address: self.address@ }
    }
}

impl Clone for TrustedPeer {
    fn clone(&self) -> (r: Self)
        ensures
            r@ == self@,
    {
        TrustedPeer { address: self.address.clone() }
    }
}

/// Copies a list of trusted peers.
fn clone_peer_vec(v: &Vec<TrustedPeer>) -> (r: Vec<TrustedPeer>)
    ensures
        r@.map_values(|p: TrustedPeer| p@) == v@.map_values(|p: TrustedPeer| p@),
{
    let mut out: Vec<TrustedPeer> = Vec::new();
    let n = v.len();
    let mut i: usize = 0;
    while i < n
        invariant
            0 <= i <= n,
            n == v.len(),
            out@.len() == i,
            forall|j: int| 0 <= j < i ==> out@[j]@ == v@[j]@,
        decreases n - i,
    {
        out.push(v[i].clone());
        i = i + 1;
    }
    proof {
        assert(out@.map_values(|p: TrustedPeer| p@) =~= v@.map_values(|p: TrustedPeer| p@));
    }
    out
}

/// Mathematical model of the REST section.
pub ghost struct RestView {
    pub listen: Seq<char>,
}

/// The REST section: the socket address the REST API listens on.
#[derive(Debug)]
pub struct Rest {
    pub listen: String,
}

impl View for Rest {
    type V = RestView;

    open spec fn view(&self) -> RestView {
        RestView { listen: self.listen@ }
    }
}

impl Clone for Rest {
    fn clone(&self) -> (r: Self)
        ensures
            r@ == self@,
    {
        Rest { listen: self.listen.clone() }
    }
}

/// Mathematical model of the peer-to-peer section.
pub ghost struct P2pView {
    pub trusted_peers: Seq<TrustedPeerView>,
    pub public_address: Seq<char>,
    pub listen_address: Option<Seq<char>>,
    pub max_inbound_connections: Option<u32>,
    pub max_connections: Option<u32>,
    pub topics_of_interest: Option<TopicsOfInterestView>,
    pub allow_private_addresses: bool,
    pub policy: Option<PolicyView>,
}

/// The peer-to-peer section: addresses, connection limits, gossip interests
/// and the quarantine policy.
#[derive(Debug)]
pub struct P2p {
    pub trusted_peers: Vec<TrustedPeer>,
    pub public_address: String,
    pub listen_address: Option<String>,
    pub max_inbound_connections: Option<u32>,
    pub max_connections: Option<u32>,
    pub topics_of_interest: Option<TopicsOfInterest>,
    pub allow_private_addresses: bool,
    pub policy: Option<Policy>,
}

impl View for P2p {
    type V = P2pView;

    open spec fn view(&self) -> P2pView {
        P2pView {
            trusted_peers: self.trusted_peers@.map_values(|p: TrustedPeer| p@),
            public_address: self.public_address@,
            listen_address: match self.listen_address {
                Some(a) => Some(a@),
                None => None,
            },
            max_inbound_connections: self.max_inbound_connections,
            max_connections: self.max_connections,
            topics_of_interest: match self.topics_of_interest {
                Some(t) => Some(t@),
                None => None,
            },
            allow_private_addresses: self.allow_private_addresses,
            policy: match self.policy {
                Some(p) => Some(p@),
                None => None,
            },
        }
    }
}

impl Clone for P2p {
    fn clone(&self) -> (r: Self)
        ensures
            r@ == self@,
    {
        P2p {
            trusted_peers: clone_peer_vec(&self.trusted_peers),
            public_address: self.public_address.clone(),
            listen_address: match &self.listen_address {
                Some(a) => Some(a.clone()),
                None => None,
            },
            max_inbound_connections: self.max_inbound_connections,
            max_connections: self.max_connections,
            topics_of_interest: match &self.topics_of_interest {
                Some(t) => Some(t.clone()),
                None => None,
            },
            allow_private_addresses: self.allow_private_addresses,
            policy: match &self.policy {
                Some(p) => Some(p.clone()),
                None => None,
            },
        }
    }
}

/// Mathematical model of the whole node configuration.
pub ghost struct NodeConfigView {
    pub storage: Option<Seq<char>>,
    pub log: Option<Seq<LogEntryView>>,
    pub rest: RestView,
    pub p2p: P2pView,
    pub mempool: Option<Mempool>,
    pub explorer: Explorer,
    pub bootstrap_from_trusted_peers: Option<bool>,
    pub skip_bootstrap: Option<bool>,
}

/// The whole node configuration.
#[derive(Debug)]
pub struct NodeConfig {
    pub storage: Option<String>,
    pub log: Option<Log>,
    pub rest: Rest,
    pub p2p: P2p,
    pub mempool: Option<Mempool>,
    pub explorer: Explorer,
    pub bootstrap_from_trusted_peers: Option<bool>,
    pub skip_bootstrap: Option<bool>,
}

impl View for NodeConfig {
    type V = NodeConfigView;

    open spec fn view(&self) -> NodeConfigView {
        NodeConfigView {
            storage: match self.storage {
                Some(s) => Some(s@),
                None => None,
            },
            log: match self.log {
                Some(l) => Some(l@),
                None => None,
            },
            rest: self.rest@,
            p2p: self.p2p@,
            mempool: self.mempool,
            explorer: self.explorer,
            bootstrap_from_trusted_peers: self.bootstrap_from_trusted_peers,
            skip_bootstrap: self.skip_bootstrap,
        }
    }
}

impl NodeConfig {
    /// The path of the first file logging destination, if any.
    pub fn log_file_path(&self) -> (r: Option<&String>)
        ensures
            (r is Some) == (self@.log matches Some(entries) && spec_file_path(entries) is Some),
            r matches Some(p) ==> Some(p@) == spec_file_path(self@.log.unwrap()),
    {
        match &self.log {
            Some(log) => log.file_path(),
            None => None,
        }
    }

    /// Updates the first file logging destination's path, if there is one.
    pub fn update_log_file_path(&mut self, path: String)
        ensures
            old(self)@.log is None ==> final(self)@ == old(self)@,
            old(self)@.log matches Some(entries) ==> final(self)@ == (NodeConfigView {
                log: Some(spec_update_file_path(entries, path@)),
                ..old(self)@
            }),
    {
        match &mut self.log {
            Some(log) => log.update_file_path(path),
            None => {},
        }
    }
}

/// Mathematical model of the configuration builder.
pub ghost struct NodeConfigBuilderView {
    pub storage: Option<Seq<char>>,
    pub log: Option<Seq<LogEntryView>>,
    pub rest: RestView,
    pub p2p: P2pView,
    pub mempool: Option<Mempool>,
    pub explorer: Explorer,
}

/// Builds a node configuration stepwise, starting from sensible defaults.
#[derive(Debug)]
pub struct NodeConfigBuilder {
    pub storage: Option<String>,
    pub log: Option<Log>,
    pub rest: Rest,
    pub p2p: P2p,
    pub mempool: Option<Mempool>,
    pub explorer: Explorer,
}

impl View for NodeConfigBuilder {
    type V = NodeConfigBuilderView;

    open spec fn view(&self) -> NodeConfigBuilderView {
        NodeConfigBuilderView {
            storage: match self.storage {
                Some(s) => Some(s@),
                None => None,
            },
            log: match self.log {
                Some(l) => Some(l@),
                None => None,
            },
            rest: self.rest@,
            p2p: self.p2p@,
            mempool: self.mempool,
            explorer: self.explorer,
        }
    }
}

/// The host every default listen and gossip address binds to.
pub const DEFAULT_HOST: &'static str = "127.0.0.1";

/// The default REST listen address for the given port.
pub open spec fn spec_rest_listen(rest_port: u16) -> Seq<char> {
    "127.0.0.1:"@ + dec_str_of(rest_port as nat)
}

/// The default gossip multiaddress for the given port.
pub open spec fn spec_public_address(public_address_port: u16) -> Seq<char> {
    "/ip4/127.0.0.1/tcp/"@ + dec_str_of(public_address_port as nat)
}

/// The builder's starting state: a trace-level JSON log into the given file,
/// REST and gossip addresses on the default host with the given ports, no
/// trusted peers, high interest in both gossip topics, a one-second
/// quarantine, the default mempool bounds, and the explorer disabled.
pub open spec fn spec_default_builder(
    rest_port: u16,
    public_address_port: u16,
    log_file_path: Seq<char>,
) -> NodeConfigBuilderView {
    NodeConfigBuilderView {
        storage: None,
        log: Some(
            seq![
                LogEntryView {
                    format: "json"@,
                    level: "trace"@,
                    output: LogOutputView::File(log_file_path),
                },
            ],
        ),
        rest: RestView { listen: spec_rest_listen(rest_port) },
        p2p: P2pView {
            trusted_peers: Seq::<TrustedPeerView>::empty(),
            public_address: spec_public_address(public_address_port),
            listen_address: None,
            max_inbound_connections: None,
            max_connections: None,
            topics_of_interest: Some(
                TopicsOfInterestView { messages: "high"@, blocks: "high"@ },
            ),
            allow_private_addresses: false,
            policy: Some(
                PolicyView {
                    quarantine_duration: Some(Duration { secs: 1, nanos: 0 }),
                    quarantine_whitelist: None,
                },
            ),
        },
        mempool: Some(Mempool { pool_max_entries: 10000, log_max_entries: 100000 }),
        explorer: Explorer { enabled: false },
    }
}

impl NodeConfigBuilder {
    /// Creates the builder in its default state. The two free ports and the
    /// log file's path come from the caller, which picks them from the
    /// environment.
    pub fn new(rest_port: u16, public_address_port: u16, log_file_path: String) -> (r:
        NodeConfigBuilder)
        ensures
            r@ == spec_default_builder(rest_port, public_address_port, log_file_path@),
    {
        let mut listen = "127.0.0.1:".to_owned();
        let rest_port_text = u64_to_dec_string(rest_port as u64);
        listen.append(rest_port_text.as_str());

        let mut public_address = "/ip4/127.0.0.1/tcp/".to_owned();
        let public_port_text = u64_to_dec_string(public_address_port as u64);
        public_address.append(public_port_text.as_str());

        let mut log_entries: Vec<LogEntry> = Vec::new();
        log_entries.push(
            LogEntry {
                format: "json".to_owned(),
                level: "trace".to_owned(),
                output: LogOutput::File(log_file_path),
            },
        );
        let log = Log(log_entries);

        let r = NodeConfigBuilder {
            storage: None,
            log: Some(log),
            rest: Rest { listen },
            p2p: P2p {
                trusted_peers: Vec::new(),
                public_address,
                listen_address: None,
                max_inbound_connections: None,
                max_connections: None,
                topics_of_interest: Some(
                    TopicsOfInterest {
                        messages: "high".to_owned(),
                        blocks: "high".to_owned(),
                    },
                ),
                allow_private_addresses: false,
                policy: Some(
                    Policy {
                        quarantine_duration: Some(Duration::new(1, 0)),
                        quarantine_whitelist: None,
                    },
                ),
            },
            mempool: Some(Mempool::default()),
            explorer: Explorer { enabled: false },
        };
        proof {
            let expected = spec_default_builder(rest_port, public_address_port, log_file_path@);
            assert(r@.log.unwrap() =~= expected.log.unwrap());
            assert(r@.p2p.trusted_peers =~= expected.p2p.trusted_peers);
        }
        r
    }

    /// Switches the explorer API on.
    pub fn with_explorer(&mut self) -> (r: &mut Self)
        ensures
            r@ == (NodeConfigBuilderView { explorer: Explorer { enabled: true }, ..old(self)@ }),
            *final(self) == *final(r),
    {
        self.explorer.enabled = true;
        self
    }

    /// Replaces the quarantine policy.
    pub fn with_policy(&mut self, policy: Policy) -> (r: &mut Self)
        ensures
            r@ == (NodeConfigBuilderView {
                p2p: P2pView { policy: Some(policy@), ..old(self)@.p2p },
                ..old(self)@
            }),
            *final(self) == *final(r),
    {
        self.p2p.policy = Some(policy);
        self
    }

    /// Replaces the logging section.
    pub fn with_log(&mut self, log: Log) -> (r: &mut Self)
        ensures
            r@ == (NodeConfigBuilderView { log: Some(log@), ..old(self)@ }),
            *final(self) == *final(r),
    {
        self.log = Some(log);
        self
    }

    /// Replaces the trusted peers.
    pub fn with_trusted_peers(&mut self, trusted_peers: Vec<TrustedPeer>) -> (r: &mut Self)
        ensures
            r@ == (NodeConfigBuilderView {
                p2p: P2pView {
                    trusted_peers: trusted_peers@.map_values(|p: TrustedPeer| p@),
                    ..old(self)@.p2p
                },
                ..old(self)@
            }),
            *final(self) == *final(r),
    {
        self.p2p.trusted_peers = trusted_peers;
        self
    }

    /// Replaces the public gossip address.
    pub fn with_public_address(&mut self, public_address: String) -> (r: &mut Self)
        ensures
            r@ == (NodeConfigBuilderView {
                p2p: P2pView { public_address: public_address@, ..old(self)@.p2p },
                ..old(self)@
            }),
            *final(self) == *final(r),
    {
        self.p2p.public_address = public_address;
        self
    }

    /// Sets the gossip listen address.
    pub fn with_listen_address(&mut self, listen_address: String) -> (r: &mut Self)
        ensures
            r@ == (NodeConfigBuilderView {
                p2p: P2pView { listen_address: Some(listen_address@), ..old(self)@.p2p },
                ..old(self)@
            }),
            *final(self) == *final(r),
    {
        self.p2p.listen_address = Some(listen_address);
        self
    }

    /// Replaces the mempool section.
    pub fn with_mempool(&mut self, mempool: Mempool) -> (r: &mut Self)
        ensures
            r@ == (NodeConfigBuilderView { mempool: Some(mempool), ..old(self)@ }),
            *final(self) == *final(r),
    {
        self.mempool = Some(mempool);
        self
    }

    /// Sets the storage directory.
    pub fn with_storage(&mut self, path: String) -> (r: &mut Self)
        ensures
            r@ == (NodeConfigBuilderView { storage: Some(path@), ..old(self)@ }),
            *final(self) == *final(r),
    {
        self.storage = Some(path);
        self
    }

    /// Assembles the configuration: the builder's sections as they stand,
    /// with bootstrapping from trusted peers exactly when some are known.
    pub fn build(&self) -> (r: NodeConfig)
        ensures
            r@ == (NodeConfigView {
                storage: self@.storage,
                log: self@.log,
                rest: self@.rest,
                p2p: self@.p2p,
                mempool: self@.mempool,
                explorer: self@.explorer,
                bootstrap_from_trusted_peers: Some(self@.p2p.trusted_peers.len() > 0),
                skip_bootstrap: Some(self@.p2p.trusted_peers.len() == 0),
            }),
    {
        let has_peers = self.p2p.trusted_peers.len() > 0;
        NodeConfig {
            storage: match &self.storage {
                Some(s) => Some(s.clone()),
                None => None,
            },
            log: match &self.log {
                Some(l) => Some(l.clone()),
                None => None,
            },
            rest: self.rest.clone(),
            p2p: self.p2p.clone(),
            mempool: self.mempool,
            explorer: self.explorer,
            bootstrap_from_trusted_peers: Some(has_peers),
            skip_bootstrap: Some(!has_peers),
        }
    }
}

} // verus!
