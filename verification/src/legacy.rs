//! Conversion of the current node configuration to the shape that nodes
//! before version 0.8.19 expect: the same sections, with a fresh random
//! gossip identifier attached to every trusted peer.

use vstd::prelude::*;

use crate::config;
use crate::config::{Explorer, Mempool, PolicyView, TopicsOfInterestView};

verus! {

/// A node version: a semantic version triple.
#[derive(Debug, Clone, Copy, PartialEq, Eq, Structural)]
pub struct Version {
    pub major: u64,
    pub minor: u64,
    pub patch: u64,
}

/// Version `a` comes strictly after version `b`.
pub open spec fn spec_version_gt(a: Version, b: Version) -> bool {
    ||| a.major > b.major
    ||| (a.major == b.major && a.minor > b.minor)
    ||| (a.major == b.major && a.minor == b.minor && a.patch > b.patch)
}

impl Version {
    /// Assembles a version triple.
    pub fn new(major: u64, minor: u64, patch: u64) -> (r: Version)
        ensures
            r == (Version { major, minor, patch }),
    {
        Version { major, minor, patch }
    }

    /// Whether this version comes strictly after `other`.
    pub fn is_after(&self, other: &Version) -> (r: bool)
        ensures
            r == spec_version_gt(*self, *other),
    {
        if self.major != other.major {
            self.major > other.major
        } else if self.minor != other.minor {
            self.minor > other.minor
        } else {
            self.patch > other.patch
        }
    }
}

/// The newest version whose configuration shape this converter produces.
pub fn version_0_8_19() -> (r: Version)
    ensures
        r == (Version { major: 0, minor: 8, patch: 19 }),
{
    Version::new(0, 8, 19)
}

/// The conversion failure: the requested node version is newer than the
/// legacy configuration shape covers.
#[derive(Debug, Clone, Copy, PartialEq, Eq, Structural)]
pub enum LegacyConfigConverterError {
    UnsupportedVersion(Version),
}

/// Mathematical model of a legacy trusted peer.
pub ghost struct TrustedPeerView {
    pub id: Option<Seq<char>>,
    pub address: Seq<char>,
}

/// A trusted peer as legacy nodes expect it: the gossip address plus an
/// explicit gossip identifier.
#[derive(Debug)]
pub struct TrustedPeer {
    pub id: Option<String>,
    pub address: String,
}

impl View for TrustedPeer {
    type V = TrustedPeerView;

    open spec fn view(&self) -> TrustedPeerView {
        TrustedPeerView {
            id: match self.id {
                Some(id) => Some(id@),
                None => None,
            },
            address: self.address@,
        }
    }
}

/// Mathematical model of the legacy REST section.
pub ghost struct RestView {
    pub listen: Seq<char>,
}

/// The REST section as legacy nodes expect it.
#[derive(Debug)]
pub struct Rest {
    pub listen: String,
}

impl View for Rest {
    type V = RestView;

    open spec fn view(&self) -> RestView {
        RestView { listen: self.listen@ }
    }
}

/// Mathematical model of the legacy peer-to-peer section.
pub ghost struct P2pView {
    pub trusted_peers: Seq<TrustedPeerView>,
    pub public_address: Seq<char>,
    pub listen_address: Option<Seq<char>>,
    pub max_inbound_connections: Option<u32>,
    pub max_connections: Option<u32>,
    pub topics_of_interest: Option<TopicsOfInterestView>,
    pub allow_private_addresses: bool,
    pub policy: Option<PolicyView>,
}

/// The peer-to-peer section as legacy nodes expect it.
#[derive(Debug)]
pub struct P2p {
    pub trusted_peers: Vec<TrustedPeer>,
    pub public_address: String,
    pub listen_address: Option<String>,
    pub max_inbound_connections: Option<u32>,
    pub max_connections: Option<u32>,
    pub topics_of_interest: Option<config::TopicsOfInterest>,
    pub allow_private_addresses: bool,
    pub policy: Option<config::Policy>,
}

impl View for P2p {
    type V = P2pView;

    open spec fn view(&self) -> P2pView {
        P2pView {
            trusted_peers: self.trusted_peers@.map_values(|p: TrustedPeer| p@),
            public_address: self.public_address@,
            listen_address: match self.listen_address {
                Some(a) => Some(a@),
                None => None,
            },
            max_inbound_connections: self.max_inbound_connections,
            max_connections: self.max_connections,
            topics_of_interest: match self.topics_of_interest {
                Some(t) => Some(t@),
                None => None,
            },
            allow_private_addresses: self.allow_private_addresses,
            policy: match self.policy {
                Some(p) => Some(p@),
                None => None,
            },
        }
    }
}

/// Mathematical model of the whole legacy node configuration.
pub ghost struct NodeConfigView {
    pub storage: Option<Seq<char>>,
    pub log: Option<Seq<config::LogEntryView>>,
    pub rest: RestView,
    pub p2p: P2pView,
    pub mempool: Option<Mempool>,
    pub explorer: Explorer,
    pub bootstrap_from_trusted_peers: Option<bool>,
    pub skip_bootstrap: Option<bool>,
}

/// The whole node configuration as legacy nodes expect it.
#[derive(Debug)]
pub struct NodeConfig {
    pub storage: Option<String>,
    pub log: Option<config::Log>,
    pub rest: Rest,
    pub p2p: P2p,
    pub mempool: Option<Mempool>,
    pub explorer: Explorer,
    pub bootstrap_from_trusted_peers: Option<bool>,
    pub skip_bootstrap: Option<bool>,
}

impl View for NodeConfig {
    type V = NodeConfigView;

    open spec fn view(&self) -> NodeConfigView {
        NodeConfigView {
            storage: match self.storage {
                Some(s) => Some(s@),
                None => None,
            },
            log: match self.log {
                Some(l) => Some(l@),
                None => None,
            },
            rest: self.rest@,
            p2p: self.p2p@,
            mempool: self.mempool,
            explorer: self.explorer,
            bootstrap_from_trusted_peers: self.bootstrap_from_trusted_peers,
            skip_bootstrap: self.skip_bootstrap,
        }
    }
}

/// The character for one hexadecimal digit, lowercase.
pub open spec fn hex_digit_char(n: u8) -> char {
    if n == 0 {
        '0'
    } else if n == 1 {
        '1'
    } else if n == 2 {
        '2'
    } else if n == 3 {
        '3'
    } else if n == 4 {
        '4'
    } else if n == 5 {
        '5'
    } else if n == 6 {
        '6'
    } else if n == 7 {
        '7'
    } else if n == 8 {
        '8'
    } else if n == 9 {
        '9'
    } else if n == 10 {
        'a'
    } else if n == 11 {
        'b'
    } else if n == 12 {
        'c'
    } else if n == 13 {
        'd'
    } else if n == 14 {
        'e'
    } else {
        'f'
    }
}

/// The lowercase hexadecimal notation of a byte string: two digits per byte,
/// most significant nibble first.
pub open spec fn hex_of(bytes: Seq<u8>) -> Seq<char> {
    Seq::new(
        bytes.len() * 2,
        |i: int|
            if i % 2 == 0 {
                hex_digit_char(bytes[i / 2] >> 4u8)
            } else {
                hex_digit_char(bytes[i / 2] & 0xfu8)
            },
    )
}

/// Relies on rand's operating-system randomness source: `fill_bytes` fills
/// the buffer with bytes from the operating system (and panics only if that
/// source itself fails).
#[verifier::external_body]
fn os_random_bytes_24() -> (r: Vec<u8>)
    ensures
        r@.len() == 24,
{
    let mut bytes: [u8; 24] = [0; 24];
    rand::RngCore::fill_bytes(&mut rand::rngs::OsRng, &mut bytes);
    bytes.to_vec()
}

/// Relies on hex::encode: two lowercase hexadecimal digits per byte, most
/// significant nibble first.
#[verifier::external_body]
fn hex_encode(bytes: &Vec<u8>) -> (r: String)
    ensures
        r@ == hex_of(bytes@),
{
    hex::encode(bytes)
}

/// Draws a fresh random gossip identifier: 24 random bytes in lowercase
/// hexadecimal notation, so 48 characters.
fn generate_legacy_poldercast_id() -> (r: String)
    ensures
        exists|b: Seq<u8>| b.len() == 24 && r@ == hex_of(b),
        r@.len() == 48,
{
    let bytes = os_random_bytes_24();
    let id = hex_encode(&bytes);
    proof {
        assert(bytes@.len() == 24 && id@ == hex_of(bytes@));
    }
    id
}

/// The peer carries a fresh gossip identifier: 24 random bytes in
/// hexadecimal notation.
pub open spec fn has_fresh_id(p: TrustedPeerView) -> bool {
    exists|b: Seq<u8>| b.len() == 24 && p.id == Some(hex_of(b))
}

/// The legacy configuration carries the same sections as the source: only
/// the trusted peers change shape, each keeping its address and gaining a
/// 48-character hexadecimal gossip identifier.
pub open spec fn legacy_config_matches(r: NodeConfigView, s: config::NodeConfigView) -> bool {
    &&& r.storage == s.storage
    &&& r.log == s.log
    &&& r.rest.listen == s.rest.listen
    &&& r.p2p.public_address == s.p2p.public_address
    &&& r.p2p.listen_address is None
    &&& r.p2p.max_inbound_connections is None
    &&& r.p2p.max_connections is None
    &&& r.p2p.topics_of_interest == s.p2p.topics_of_interest
    &&& r.p2p.allow_private_addresses == false
    &&& r.p2p.policy == s.p2p.policy
    &&& r.mempool == s.mempool
    &&& r.explorer == s.explorer
    &&& r.bootstrap_from_trusted_peers == s.bootstrap_from_trusted_peers
    &&& r.skip_bootstrap == s.skip_bootstrap
    &&& r.p2p.trusted_peers.len() == s.p2p.trusted_peers.len()
    &&& forall|i: int|
        0 <= i < s.p2p.trusted_peers.len() ==> #[trigger] r.p2p.trusted_peers[i].address
            == s.p2p.trusted_peers[i].address
    &&& forall|i: int|
        0 <= i < s.p2p.trusted_peers.len() ==> has_fresh_id(#[trigger] r.p2p.trusted_peers[i])
}

/// Converts a node configuration to the shape nodes before 0.8.19 expect.
pub struct LegacyNodeConfigConverter {
    version: Version,
}

impl View for LegacyNodeConfigConverter {
    type V = Version;

    closed spec fn view(&self) -> Version {
        self.version
    }
}

impl LegacyNodeConfigConverter {
    /// Creates the converter for the given target node version.
    pub fn new(version: Version) -> (r: LegacyNodeConfigConverter)
        ensures
            r@ == version,
    {
        Self { version }
    }

    /// Converts the configuration, or reports that the target version is
    /// newer than the legacy shape covers.
    pub fn convert(&self, source: &config::NodeConfig) -> (r: Result<
        NodeConfig,
        LegacyConfigConverterError,
    >)
        ensures
            (r is Err) == spec_version_gt(self@, Version { major: 0, minor: 8, patch: 19 }),
            r matches Err(e) ==> e == LegacyConfigConverterError::UnsupportedVersion(self@),
            r matches Ok(c) ==> legacy_config_matches(c@, source@),
    {
        if self.version.is_after(&version_0_8_19()) {
            return Err(LegacyConfigConverterError::UnsupportedVersion(self.version));
        }
        Ok(self.build_node_config_before_08_19(source))
    }

    /// Builds the legacy configuration: every section copied, every trusted
    /// peer given a fresh random gossip identifier.
    pub fn build_node_config_before_08_19(&self, source: &config::NodeConfig) -> (r: NodeConfig)
        ensures
            legacy_config_matches(r@, source@),
    {
        let mut trusted_peers: Vec<TrustedPeer> = Vec::new();
        let n = source.p2p.trusted_peers.len();
        let mut i: usize = 0;
        while i < n
            invariant
                0 <= i <= n,
                n == source.p2p.trusted_peers.len(),
                trusted_peers@.len() == i,
                forall|j: int|
                    0 <= j < i ==> #[trigger] trusted_peers@[j]@.address
                        == source.p2p.trusted_peers@[j]@.address,
                forall|j: int| 0 <= j < i ==> has_fresh_id(#[trigger] trusted_peers@[j]@),
            decreases n - i,
        {
            let id = generate_legacy_poldercast_id();
            let peer = TrustedPeer {
                id: Some(id),
                address: source.p2p.trusted_peers[i].address.clone(),
            };
            proof {
                let b = choose|b: Seq<u8>| b.len() == 24 && peer@.id.unwrap() == hex_of(b);
                assert(peer@.id == Some(hex_of(b)));
                assert(has_fresh_id(peer@));
            }
            trusted_peers.push(peer);
            i = i + 1;
        }

        let r = NodeConfig {
            storage: match &source.storage {
                Some(s) => Some(s.clone()),
                None => None,
            },
            log: match &source.log {
                Some(l) => Some(l.clone()),
                None => None,
            },
            rest: Rest { listen: source.rest.listen.clone() },
            p2p: P2p {
                trusted_peers,
                public_address: source.p2p.public_address.clone(),
                listen_address: None,
                max_inbound_connections: None,
                max_connections: None,
                topics_of_interest: match &source.p2p.topics_of_interest {
                    Some(t) => Some(t.clone()),
                    None => None,
                },
                allow_private_addresses: false,
                policy: match &source.p2p.policy {
                    Some(p) => Some(p.clone()),
                    None => None,
                },
            },
            mempool: source.mempool,
            explorer: source.explorer,
            bootstrap_from_trusted_peers: source.bootstrap_from_trusted_peers,
            skip_bootstrap: source.skip_bootstrap,
        };
        proof {
            let rp = r@.p2p.trusted_peers;
            let sp = source@.p2p.trusted_peers;
            assert(rp.len() == sp.len());
            assert forall|j: int| 0 <= j < sp.len() implies #[trigger] rp[j].address
                == sp[j].address by {
                assert(rp[j] == trusted_peers@[j]@);
                assert(sp[j] == source.p2p.trusted_peers@[j]@);
            }
            assert forall|j: int| 0 <= j < sp.len() implies has_fresh_id(
                #[trigger] rp[j],
            ) by {
                assert(rp[j] == trusted_peers@[j]@);
                assert(has_fresh_id(trusted_peers@[j]@));
            }
        }
        r
    }
}

/// Converts the whole start-up parameter set for a legacy node; the node
/// configuration part is this converter's work.
pub struct LegacyConfigConverter {
    version: Version,
}

impl View for LegacyConfigConverter {
    type V = Version;

    closed spec fn view(&self) -> Version {
        self.version
    }
}

impl LegacyConfigConverter {
    /// Creates the converter for the given target node version.
    pub fn new(version: Version) -> (r: LegacyConfigConverter)
        ensures
            r@ == version,
    {
        Self { version }
    }

    /// The node-configuration converter for the same target version.
    pub fn node_config_converter(&self) -> (r: LegacyNodeConfigConverter)
        ensures
            r@ == self@,
    {
        LegacyNodeConfigConverter::new(self.version)
    }
}

} // verus!
