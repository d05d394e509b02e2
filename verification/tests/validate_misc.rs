use fedimint_server::client::ClientConfigError;
use fedimint_server::config::{ConfigGenParams, ConfigGenParamsConsensus, ConfigGenParamsLocal};
use fedimint_server::types::PeerConnectionInfo;
use fedimint_server::config::{ModuleLookupError, ServerConfig, ServerConfigConsensus,
    ServerConfigLocal, ServerConfigPrivate};
use fedimint_server::crypto::{derive_broadcast_public_key, generate_broadcast_keypair};
use fedimint_server::gateways::rank_gateways;
use fedimint_server::identity::{dns_sanitize, gen_cert_and_key};
use fedimint_server::mint_output::{
    verify_blind_share, BlindShareError, MintOutputCommon, MintOutputStateMachine,
    MintOutputStates, MintOutputStatesCreated, MintOutputStatesCreatedMulti, NoteIssuanceRequest,
};
use fedimint_server::registry::{ModuleInitRegistry, StaticModuleRegistry};
use fedimint_server::sorted_map::SortedMap;
use fedimint_server::types::{
    core_consensus_version, ModuleRawConfig, PeerUrl, ServerModuleConsensusConfig,
};
use fedimint_server::validate::ConfigValidationError;
use fedimint_server::PeerId;

fn url(name: &str, u: &str) -> PeerUrl {
    PeerUrl { name: name.to_string(), url: u.to_string() }
}

fn registry() -> StaticModuleRegistry {
    StaticModuleRegistry { kinds: vec!["dummy".to_string()] }
}

/// A configuration whose broadcast key material is consistent for peer 0 and
/// whose local peer table holds the given peer ids.
fn config_with_peer_ids(ids: &[u16]) -> ServerConfig {
    let (sk, pk) = generate_broadcast_keypair();
    let mut bpks = SortedMap::new();
    bpks.insert(0, pk);
    let mut p2p = SortedMap::new();
    for &i in ids {
        p2p.insert(i, url(&format!("guardian-{i}"), &format!("fedimint://p{i}.example.com")));
    }
    ServerConfig {
        consensus: ServerConfigConsensus {
            code_version: "1.0.0".to_string(),
            version: core_consensus_version(),
            broadcast_public_keys: bpks,
            broadcast_rounds_per_session: 3600,
            api_endpoints: SortedMap::new(),
            iroh_endpoints: SortedMap::new(),
            tls_certs: SortedMap::new(),
            modules: SortedMap::new(),
            meta: vec![],
        },
        local: ServerConfigLocal {
            p2p_endpoints: p2p,
            identity: PeerId(0),
            max_connections: 1000,
            broadcast_round_delay_ms: 50,
            modules: SortedMap::new(),
        },
        private: ServerConfigPrivate {
            api_auth: "SECRET-REDACTED".to_string(),
            tls_key: None,
            iroh_api_sk: None,
            iroh_p2p_sk: None,
            broadcast_secret_key: sk,
            modules: SortedMap::new(),
        },
    }
}

#[test]
fn validator_accepts_contiguous_ids() {
    let cfg = config_with_peer_ids(&[0, 1, 2]);
    assert!(cfg.validate_config(PeerId(0), &registry()).is_ok());
}

#[test]
fn validator_rejects_gap_in_peer_ids() {
    // three peers with ids {0, 1, 3}: the gap at 2 is rejected
    let cfg = config_with_peer_ids(&[0, 1, 3]);
    assert!(matches!(
        cfg.validate_config(PeerId(0), &registry()),
        Err(ConfigValidationError::PeerIdsNotContiguous)
    ));
}

#[test]
fn validator_rejects_peer_ids_not_from_zero() {
    // ids {1, 2, 3}: no zero, rejected likewise
    let cfg = config_with_peer_ids(&[1, 2, 3]);
    assert!(matches!(
        cfg.validate_config(PeerId(0), &registry()),
        Err(ConfigValidationError::PeerIdsNotContiguous)
    ));
}

#[test]
fn validator_rejects_empty_peer_table() {
    // a federation has at least peer 0; an empty local peer table is not a
    // contiguous {0..n-1} indexing
    let cfg = config_with_peer_ids(&[]);
    assert!(matches!(
        cfg.validate_config(PeerId(0), &registry()),
        Err(ConfigValidationError::PeerIdsNotContiguous)
    ));
}

#[test]
fn validator_accepts_module_free_config() {
    // with consistent keys, contiguous ids and no modules, success is owed
    let cfg = config_with_peer_ids(&[0]);
    assert!(cfg.validate_config(PeerId(0), &registry()).is_ok());
}

#[test]
fn validator_rejects_key_mismatch() {
    // the stored public key belongs to a different secret key
    let mut cfg = config_with_peer_ids(&[0, 1, 2]);
    let (_other_sk, other_pk) = generate_broadcast_keypair();
    let mut bpks = SortedMap::new();
    bpks.insert(0, other_pk);
    cfg.consensus.broadcast_public_keys = bpks;
    assert!(matches!(
        cfg.validate_config(PeerId(0), &registry()),
        Err(ConfigValidationError::BroadcastKeyMismatch)
    ));
}

#[test]
fn validator_rejects_missing_key_entry() {
    let mut cfg = config_with_peer_ids(&[0, 1, 2]);
    cfg.consensus.broadcast_public_keys = SortedMap::new();
    assert!(matches!(
        cfg.validate_config(PeerId(0), &registry()),
        Err(ConfigValidationError::BroadcastKeyMismatch)
    ));
}

#[test]
fn validator_rejects_unregistered_module_kind() {
    let mut cfg = config_with_peer_ids(&[0, 1]);
    let mut modules = SortedMap::new();
    modules.insert(
        3,
        ServerModuleConsensusConfig { kind: "unknown".to_string(), config: vec![] },
    );
    cfg.consensus.modules = modules;
    let mut local = SortedMap::new();
    local.insert(3, ModuleRawConfig { kind: "unknown".to_string(), value: vec![] });
    cfg.local.modules = local;
    let mut private = SortedMap::new();
    private.insert(3, ModuleRawConfig { kind: "unknown".to_string(), value: vec![] });
    cfg.private.modules = private;
    assert!(matches!(
        cfg.validate_config(PeerId(0), &registry()),
        Err(ConfigValidationError::ModuleKindNotRegistered(3))
    ));
}

#[test]
fn static_registry_reports_its_own_verdict() {
    // the registry's validation verdict is its own: a record whose kind tag
    // does not match the looked-up kind is rejected with the module's
    // message, an unregistered kind gets no verdict at all
    let reg = registry();
    let mismatched = fedimint_server::types::ServerModuleConfig {
        local: ModuleRawConfig { kind: "dummy".to_string(), value: vec![] },
        private: ModuleRawConfig { kind: "dummy".to_string(), value: vec![] },
        consensus: ServerModuleConsensusConfig { kind: "other".to_string(), config: vec![] },
    };
    match reg.validate_config(&"dummy".to_string(), PeerId(0), &mismatched) {
        Some(Err(e)) => assert_eq!(e, "module kind does not match its configuration"),
        _ => panic!("a mismatched kind tag must be rejected with the module's message"),
    }
    assert!(reg.validate_config(&"unknown".to_string(), PeerId(0), &mismatched).is_none());
}

#[test]
fn derive_public_key_matches_generated_pair() {
    let (sk, pk) = generate_broadcast_keypair();
    assert_eq!(derive_broadcast_public_key(&sk), Some(pk));
    // an invalid secret key is refused
    assert_eq!(derive_broadcast_public_key(&vec![0u8; 32]), None);
    assert_eq!(derive_broadcast_public_key(&vec![1u8, 2u8]), None);
}

#[test]
fn module_config_lookup() {
    let mut cfg = config_with_peer_ids(&[0]);
    let mut modules = SortedMap::new();
    modules.insert(7, ServerModuleConsensusConfig { kind: "dummy".to_string(), config: vec![1] });
    cfg.consensus.modules = modules;
    let mut local = SortedMap::new();
    local.insert(7, ModuleRawConfig { kind: "dummy".to_string(), value: vec![2] });
    cfg.local.modules = local;
    let mut private = SortedMap::new();
    private.insert(7, ModuleRawConfig { kind: "dummy".to_string(), value: vec![3] });
    cfg.private.modules = private;

    let m = cfg.get_module_config(7).unwrap();
    assert_eq!(m.consensus.config, vec![1]);
    assert_eq!(m.local.value, vec![2]);
    assert_eq!(m.private.value, vec![3]);
    assert!(matches!(cfg.get_module_config(9), Err(ModuleLookupError::NotFound(9))));
    assert_eq!(cfg.get_module_id_by_kind(&"dummy".to_string()).unwrap(), 7);
    assert!(matches!(
        cfg.get_module_id_by_kind(&"mint".to_string()),
        Err(ModuleLookupError::KindNotFound)
    ));
    let listed = cfg.iter_module_instances();
    assert_eq!(listed.len(), 1);
    assert_eq!(listed[0].0, 7);
    assert_eq!(listed[0].1, "dummy");
}

#[test]
fn invite_code_carries_identity() {
    let mut cfg = config_with_peer_ids(&[0, 1]);
    let mut api = SortedMap::new();
    api.insert(0, url("guardian-0", "wss://g0.example.com"));
    api.insert(1, url("guardian-1", "wss://g1.example.com"));
    cfg.consensus.api_endpoints = api;
    let invite = cfg.get_invite_code(Some("s3cr3t".to_string()));
    assert_eq!(invite.url, "wss://g0.example.com");
    assert_eq!(invite.peer_id.0, 0);
    assert_eq!(invite.federation_id.id, cfg.calculate_federation_id().id);
    assert_eq!(invite.api_secret, Some("s3cr3t".to_string()));
}

#[test]
fn client_config_projection() {
    let mut cfg = config_with_peer_ids(&[0]);
    let mut modules = SortedMap::new();
    modules.insert(1, ServerModuleConsensusConfig { kind: "dummy".to_string(), config: vec![5] });
    cfg.consensus.modules = modules;
    let no_modules = config_with_peer_ids(&[0]);
    assert!(no_modules.consensus.to_client_config(&registry()).is_ok());
    let cc = cfg.consensus.to_client_config(&registry()).unwrap();
    assert_eq!(cc.global.consensus_version, core_consensus_version());
    assert_eq!(cc.modules.entries().len(), 1);
    assert_eq!(cc.modules.entries()[0].1.config, vec![5]);

    let mut unknown = SortedMap::new();
    unknown.insert(1, ServerModuleConsensusConfig { kind: "other".to_string(), config: vec![] });
    cfg.consensus.modules = unknown;
    assert!(matches!(
        cfg.consensus.to_client_config(&registry()),
        Err(ClientConfigError::KindNotRegistered(1))
    ));
}

#[test]
fn tls_config_round_trips_key_material() {
    let mut peers = SortedMap::new();
    peers.insert(
        0,
        PeerConnectionInfo {
            cert: vec![0xAB, 0xCD],
            p2p_url: "fedimint://p0".to_string(),
            api_url: "wss://a0".to_string(),
            name: "guardian-0".to_string(),
            federation_name: None,
        },
    );
    let params = ConfigGenParams {
        local: ConfigGenParamsLocal {
            our_id: PeerId(0),
            our_private_key: vec![0x01, 0x02, 0x03],
            api_auth: "SECRET-REDACTED".to_string(),
            p2p_bind: "127.0.0.1:8173".to_string(),
            api_bind: "127.0.0.1:8174".to_string(),
        },
        consensus: ConfigGenParamsConsensus { peers, meta: vec![], modules: SortedMap::new() },
    };
    let tls = params.tls_config();
    assert_eq!(tls.private_key, vec![0x01, 0x02, 0x03]);
    assert_eq!(tls.certificates.entries()[0].1, vec![0xAB, 0xCD]);
    assert_eq!(tls.peer_names.entries()[0].1, "guardian-0");

    // the generated server config stores the key hex-encoded and hands it
    // back decoded
    let mut dealer_params = SortedMap::new();
    dealer_params.insert(0, params);
    let out = ServerConfig::trusted_dealer_gen(
        &dealer_params,
        &registry(),
        &"1.0.0".to_string(),
        fedimint_server::config::BroadcastSettings::default_timing(),
    );
    let entries = out.into_entries();
    let cfg = &entries[0].1;
    assert_eq!(cfg.private.tls_key, Some("010203".to_string()));
    let tls2 = cfg.tls_config();
    assert_eq!(tls2.private_key, vec![0x01, 0x02, 0x03]);
    assert_eq!(tls2.certificates.entries()[0].1, vec![0xAB, 0xCD]);
}

#[test]
fn dns_sanitize_keeps_only_safe_bytes() {
    assert_eq!(dns_sanitize("Guardian One!"), "guardian-one-");
    assert_eq!(dns_sanitize("abc-123"), "abc-123");
    assert_eq!(dns_sanitize("A_B"), "a-b");
}

#[test]
fn certificate_generation_returns_material() {
    let (cert, key) = gen_cert_and_key("Guardian One").unwrap();
    assert!(!cert.is_empty());
    assert!(!key.is_empty());
    // independent generations produce distinct key material
    let (_, key2) = gen_cert_and_key("Guardian One").unwrap();
    assert_ne!(key, key2);
}

#[test]
fn gateway_ranking_orders_by_availability() {
    let responses = vec![
        vec!["wss://a".to_string(), "wss://b".to_string()],
        vec!["wss://b".to_string()],
        vec!["wss://b".to_string(), "wss://c".to_string()],
    ];
    let ranked = rank_gateways(&responses);
    assert_eq!(ranked, vec!["wss://b".to_string(), "wss://a".to_string(), "wss://c".to_string()]);
    let empty: Vec<Vec<String>> = vec![];
    assert!(rank_gateways(&empty).is_empty());
}

fn issuance_request() -> NoteIssuanceRequest {
    NoteIssuanceRequest { spend_key: vec![1; 32], blinding_key: vec![2; 32] }
}

fn created_machine(amount: u64) -> MintOutputStateMachine {
    MintOutputStateMachine {
        common: MintOutputCommon { operation_id: 9, txid: vec![0xAA; 32], start_idx: 0 },
        state: MintOutputStates::Created(MintOutputStatesCreated {
            amount,
            issuance_request: issuance_request(),
        }),
    }
}

#[test]
fn mint_output_transitions() {
    let m = created_machine(1024);
    assert!(m.has_transitions());
    assert_eq!(m.operation_id(), 9);
    let aborted = created_machine(1024).transition_tx_rejected();
    assert!(matches!(aborted.state, MintOutputStates::Aborted(_)));
    assert!(!aborted.has_transitions());

    let ok = created_machine(1024).transition_outcome_ready(true);
    match ok.state {
        MintOutputStates::Succeeded(s) => assert_eq!(s.amount, 1024),
        _ => panic!("a valid signature completes the issuance"),
    }
    let bad = created_machine(1024).transition_outcome_ready(false);
    assert!(matches!(bad.state, MintOutputStates::Failed(_)));
}

#[test]
fn mint_output_multi_totals_amounts() {
    let mut reqs = SortedMap::new();
    reqs.insert(0, (100u64, issuance_request()));
    reqs.insert(1, (250u64, issuance_request()));
    reqs.insert(2, (1u64, issuance_request()));
    let m = MintOutputStateMachine {
        common: MintOutputCommon { operation_id: 1, txid: vec![0xBB; 32], start_idx: 0 },
        state: MintOutputStates::CreatedMulti(MintOutputStatesCreatedMulti {
            issuance_requests: reqs,
        }),
    };
    match m.transition_outcome_ready_multi().state {
        MintOutputStates::Succeeded(s) => assert_eq!(s.amount, 351),
        _ => panic!("all shares were verified, so the issuance succeeds"),
    }
}

#[test]
fn blind_share_verification_errors() {
    let mut tiers = SortedMap::new();
    tiers.insert(0, vec![1u64, 2, 4, 8]);
    assert!(matches!(
        verify_blind_share(PeerId(5), &tiers, 2, true),
        Err(BlindShareError::UnknownPeer)
    ));
    assert!(matches!(
        verify_blind_share(PeerId(0), &tiers, 3, true),
        Err(BlindShareError::InvalidAmountTier)
    ));
    assert!(matches!(
        verify_blind_share(PeerId(0), &tiers, 4, false),
        Err(BlindShareError::InvalidSignature)
    ));
    assert!(verify_blind_share(PeerId(0), &tiers, 4, true).is_ok());
}

#[test]
fn supported_versions() {
    let v = ServerConfig::supported_api_versions();
    assert_eq!(v.core_consensus, core_consensus_version());
    assert_eq!(v.api.versions.len(), 1);
    assert_eq!(v.api.versions[0].major, 0);
    assert_eq!(v.api.versions[0].minor, 5);
}
