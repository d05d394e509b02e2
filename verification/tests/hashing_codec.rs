use fedimint_server::codec::{base58_decode, base58_encode, hex_decode, hex_encode};
use fedimint_server::config::{ServerConfigLocal, ServerConfigPrivate};
use fedimint_server::PeerId;
use fedimint_server::config::{ServerConfig, ServerConfigConsensus};
use fedimint_server::crypto::sha256_digest;
use fedimint_server::hashing::{consensus_hash, legacy_consensus_config_hash};
use fedimint_server::peer_info::PeerInfoDecodeError;
use fedimint_server::sorted_map::SortedMap;
use fedimint_server::types::{
    core_consensus_version, PeerConnectionInfo, PeerIrohEndpoints, PeerUrl,
    ServerModuleConsensusConfig,
};

fn url(name: &str, u: &str) -> PeerUrl {
    PeerUrl { name: name.to_string(), url: u.to_string() }
}

fn consensus_section() -> ServerConfigConsensus {
    let mut bpks = SortedMap::new();
    bpks.insert(0, vec![2u8; 33]);
    bpks.insert(1, vec![3u8; 33]);
    let mut api = SortedMap::new();
    api.insert(0, url("alpha", "wss://a.example.com"));
    api.insert(1, url("beta", "wss://b.example.com"));
    let mut certs = SortedMap::new();
    certs.insert(0, "aa01".to_string());
    certs.insert(1, "bb02".to_string());
    let mut modules = SortedMap::new();
    modules.insert(0, ServerModuleConsensusConfig { kind: "dummy".to_string(), config: vec![1] });
    ServerConfigConsensus {
        code_version: "1.0.0".to_string(),
        version: core_consensus_version(),
        broadcast_public_keys: bpks,
        broadcast_rounds_per_session: 3600,
        api_endpoints: api,
        iroh_endpoints: SortedMap::new(),
        tls_certs: certs,
        modules,
        meta: vec![("k".to_string(), "v".to_string())],
    }
}

#[test]
fn federation_id_ignores_insertion_order() {
    // the federation identity depends on the endpoint table's contents
    // alone, not on how the table was built
    let mut forward = SortedMap::new();
    forward.insert(0, url("alpha", "wss://a.example.com"));
    forward.insert(1, url("beta", "wss://b.example.com"));
    forward.insert(5, url("zeta", "wss://z.example.com"));
    let mut backward = SortedMap::new();
    backward.insert(5, url("zeta", "wss://z.example.com"));
    backward.insert(1, url("beta", "wss://b.example.com"));
    backward.insert(0, url("alpha", "wss://a.example.com"));

    let mut c1 = consensus_section();
    c1.api_endpoints = forward;
    let mut c2 = consensus_section();
    c2.api_endpoints = backward;
    let cfg1 = server_config_with(c1);
    let cfg2 = server_config_with(c2);
    assert_eq!(cfg1.calculate_federation_id().id, cfg2.calculate_federation_id().id);
    // and hashing twice from one map is stable
    assert_eq!(cfg1.calculate_federation_id().id, cfg1.calculate_federation_id().id);
}

fn server_config_with(consensus: ServerConfigConsensus) -> ServerConfig {
    ServerConfig {
        consensus,
        local: ServerConfigLocal {
            p2p_endpoints: SortedMap::new(),
            identity: PeerId(0),
            max_connections: 1000,
            broadcast_round_delay_ms: 50,
            modules: SortedMap::new(),
        },
        private: ServerConfigPrivate {
            api_auth: "SECRET-REDACTED".to_string(),
            tls_key: None,
            iroh_api_sk: None,
            iroh_p2p_sk: None,
            broadcast_secret_key: vec![1u8; 32],
            modules: SortedMap::new(),
        },
    }
}

#[test]
fn legacy_hash_ignores_alternate_transport_endpoints() {
    // a consensus section with no alternate-transport endpoints produces the
    // same legacy hash as one that carries them; the full hash differs
    let plain = consensus_section();
    let mut extended = consensus_section();
    let mut iroh = SortedMap::new();
    iroh.insert(
        0,
        PeerIrohEndpoints {
            name: "alpha".to_string(),
            api_pk: vec![9u8; 32],
            p2p_pk: vec![8u8; 32],
        },
    );
    extended.iroh_endpoints = iroh;

    assert_eq!(legacy_consensus_config_hash(&plain), legacy_consensus_config_hash(&extended));
    assert_ne!(consensus_hash(&plain), consensus_hash(&extended));
    // and the legacy hash is stable across repeated computation
    assert_eq!(legacy_consensus_config_hash(&plain), legacy_consensus_config_hash(&plain));
}

#[test]
fn consensus_hash_covers_every_field() {
    let base = consensus_section();
    let mut other = consensus_section();
    other.broadcast_rounds_per_session = 200;
    assert_ne!(consensus_hash(&base), consensus_hash(&other));
    let mut other2 = consensus_section();
    other2.meta = vec![("k".to_string(), "w".to_string())];
    assert_ne!(consensus_hash(&base), consensus_hash(&other2));
}

#[test]
fn sha256_matches_reference_vector() {
    let digest = sha256_digest(&b"abc".to_vec());
    assert_eq!(
        hex_encode(&digest),
        "ba7816bf8f01cfea414140de5dae2223b00361a396177a9cb410ff61f20015ad"
    );
    let empty = sha256_digest(&Vec::new());
    assert_eq!(
        hex_encode(&empty),
        "e3b0c44298fc1c149afbf4c8996fb92427ae41e4649b934ca495991b7852b855"
    );
}

#[test]
fn hex_round_trip_and_rejection() {
    let bytes = vec![0xde, 0xad, 0xbe, 0xef];
    let s = hex_encode(&bytes);
    assert_eq!(s, "deadbeef");
    assert_eq!(hex_decode(&s), Some(bytes.clone()));
    // upper case is accepted
    assert_eq!(hex_decode("DEADBEEF"), Some(bytes));
    // odd length and stray characters are rejected
    assert_eq!(hex_decode("abc"), None);
    assert_eq!(hex_decode("zz"), None);
    assert_eq!(hex_decode(""), Some(Vec::new()));
}

#[test]
fn base58_round_trip() {
    let bytes = vec![0u8, 1, 2, 3, 251, 252, 253];
    let s = base58_encode(&bytes);
    assert_eq!(base58_decode(&s), Some(bytes));
    assert_eq!(base58_decode("0OIl"), None);
}

fn sample_info() -> PeerConnectionInfo {
    PeerConnectionInfo {
        cert: vec![1, 2, 3, 4, 5],
        p2p_url: "fedimint://peer0.example.com:8173".to_string(),
        api_url: "wss://peer0.example.com:8174".to_string(),
        name: "guardian-0".to_string(),
        federation_name: Some("testfed".to_string()),
    }
}

#[test]
fn peer_info_text_round_trip() {
    let info = sample_info();
    let text = info.encode_base58();
    assert!(text.starts_with("fedimint"));
    let back = PeerConnectionInfo::decode_base58(&text).unwrap();
    assert_eq!(back.cert, info.cert);
    assert_eq!(back.p2p_url, info.p2p_url);
    assert_eq!(back.api_url, info.api_url);
    assert_eq!(back.name, info.name);
    assert_eq!(back.federation_name, info.federation_name);
}

#[test]
fn peer_info_text_round_trip_without_federation_name() {
    let mut info = sample_info();
    info.federation_name = None;
    let text = info.encode_base58();
    let back = PeerConnectionInfo::decode_base58(&text).unwrap();
    assert_eq!(back.federation_name, None);
    assert_eq!(back.name, info.name);
}

#[test]
fn peer_info_decode_rejects_bad_input() {
    assert!(matches!(
        PeerConnectionInfo::decode_base58("bitcoin111"),
        Err(PeerInfoDecodeError::InvalidPrefix)
    ));
    assert!(matches!(
        PeerConnectionInfo::decode_base58("fed"),
        Err(PeerInfoDecodeError::InvalidPrefix)
    ));
    assert!(matches!(
        PeerConnectionInfo::decode_base58("fedimint0OIl"),
        Err(PeerInfoDecodeError::InvalidEncoding)
    ));
    // valid base58 that does not parse as a record
    assert!(matches!(
        PeerConnectionInfo::decode_base58("fedimint2g"),
        Err(PeerInfoDecodeError::InvalidEncoding)
    ));
}
