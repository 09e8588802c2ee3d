use jormungandr_core::config::{NodeConfigBuilder, TrustedPeer};
use jormungandr_core::legacy::{
    version_0_8_19, LegacyConfigConverter, LegacyConfigConverterError, LegacyNodeConfigConverter,
    Version,
};

#[test]
fn version_ordering_goes_field_by_field() {
    let base = Version::new(0, 8, 19);
    assert!(Version::new(1, 0, 0).is_after(&base));
    assert!(Version::new(0, 9, 0).is_after(&base));
    assert!(Version::new(0, 8, 20).is_after(&base));
    assert!(!Version::new(0, 8, 19).is_after(&base));
    assert!(!Version::new(0, 8, 18).is_after(&base));
    assert!(!Version::new(0, 7, 30).is_after(&base));
}

#[test]
fn the_conversion_boundary_is_0_8_19() {
    assert_eq!(version_0_8_19(), Version::new(0, 8, 19));
}

#[test]
fn newer_versions_are_refused() {
    let source = NodeConfigBuilder::new(8080, 9000, "log.log".to_string()).build();
    let converter = LegacyNodeConfigConverter::new(Version::new(0, 9, 0));
    match converter.convert(&source) {
        Err(LegacyConfigConverterError::UnsupportedVersion(v)) => {
            assert_eq!(v, Version::new(0, 9, 0));
        }
        Ok(_) => panic!("a version after 0.8.19 must be refused"),
    }
}

#[test]
fn old_versions_are_converted() {
    let mut builder = NodeConfigBuilder::new(8080, 9000, "log.log".to_string());
    builder.with_trusted_peers(vec![
        TrustedPeer { address: "/ip4/1.2.3.4/tcp/3000".to_string() },
        TrustedPeer { address: "/ip4/5.6.7.8/tcp/3000".to_string() },
    ]);
    let source = builder.build();
    let converter = LegacyNodeConfigConverter::new(Version::new(0, 8, 19));
    let legacy = converter.convert(&source).expect("0.8.19 must convert");

    assert_eq!(legacy.rest.listen, source.rest.listen);
    assert_eq!(legacy.p2p.public_address, source.p2p.public_address);
    assert!(legacy.p2p.listen_address.is_none());
    assert!(!legacy.p2p.allow_private_addresses);
    assert_eq!(legacy.mempool, source.mempool);
    assert_eq!(legacy.explorer, source.explorer);
    assert_eq!(legacy.bootstrap_from_trusted_peers, Some(true));
    assert_eq!(legacy.skip_bootstrap, Some(false));
    assert_eq!(legacy.p2p.trusted_peers.len(), 2);
    for (converted, source_peer) in legacy
        .p2p
        .trusted_peers
        .iter()
        .zip(source.p2p.trusted_peers.iter())
    {
        assert_eq!(converted.address, source_peer.address);
        let id = converted.id.as_ref().expect("every peer gains an identifier");
        assert_eq!(id.len(), 48);
        assert!(id.chars().all(|c| c.is_ascii_hexdigit() && !c.is_uppercase()));
    }
}

#[test]
fn fresh_identifiers_differ_between_peers() {
    let mut builder = NodeConfigBuilder::new(8080, 9000, "log.log".to_string());
    builder.with_trusted_peers(vec![
        TrustedPeer { address: "/ip4/1.2.3.4/tcp/3000".to_string() },
        TrustedPeer { address: "/ip4/5.6.7.8/tcp/3000".to_string() },
    ]);
    let source = builder.build();
    let converter = LegacyNodeConfigConverter::new(version_0_8_19());
    let legacy = converter.build_node_config_before_08_19(&source);
    let first = legacy.p2p.trusted_peers[0].id.clone().unwrap();
    let second = legacy.p2p.trusted_peers[1].id.clone().unwrap();
    // 24 random bytes collide with vanishing probability.
    assert_ne!(first, second);
}

#[test]
fn the_parameter_converter_carries_its_version() {
    let converter = LegacyConfigConverter::new(Version::new(0, 8, 18));
    let node_converter = converter.node_config_converter();
    let source = NodeConfigBuilder::new(8080, 9000, "log.log".to_string()).build();
    assert!(node_converter.convert(&source).is_ok());
}
