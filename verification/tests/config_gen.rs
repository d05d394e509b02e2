use fedimint_server::config::{BroadcastSettings, ConfigGenParams, ConfigGenParamsConsensus,
    ConfigGenParamsLocal, ServerConfig};
use fedimint_server::dkg::{DkgAction, DkgEvent, DkgSession};
use fedimint_server::hashing::consensus_hash;
use fedimint_server::registry::StaticModuleRegistry;
use fedimint_server::sorted_map::SortedMap;
use fedimint_server::types::{ModuleRawConfig, PeerConnectionInfo};
use fedimint_server::config::ModuleGenParams;
use fedimint_server::types::{ServerModuleConfig, ServerModuleConsensusConfig};
use fedimint_server::PeerId;

fn peer_info(i: u16) -> PeerConnectionInfo {
    PeerConnectionInfo {
        cert: vec![0xAA, i as u8, 0x01],
        p2p_url: format!("fedimint://peer{i}.example.com:8173"),
        api_url: format!("wss://peer{i}.example.com:8174"),
        name: format!("guardian-{i}"),
        federation_name: if i == 0 { Some("testfed".to_string()) } else { None },
    }
}

fn make_params(n: u16, our_id: u16) -> ConfigGenParams {
    let mut peers = SortedMap::new();
    for i in 0..n {
        peers.insert(i, peer_info(i));
    }
    let mut modules = SortedMap::new();
    modules.insert(
        0,
        ModuleGenParams { kind: "dummy".to_string(), params: vec![7, 7, 7] },
    );
    ConfigGenParams {
        local: ConfigGenParamsLocal {
            our_id: PeerId(our_id),
            our_private_key: vec![0x11, 0x22, 0x33, our_id as u8],
            api_auth: "SECRET-REDACTED".to_string(),
            p2p_bind: "127.0.0.1:8173".to_string(),
            api_bind: "127.0.0.1:8174".to_string(),
        },
        consensus: ConfigGenParamsConsensus {
            peers,
            meta: vec![("federation_name".to_string(), "testfed".to_string())],
            modules,
        },
    }
}

fn dealer_params(n: u16) -> SortedMap<ConfigGenParams> {
    let mut m = SortedMap::new();
    for i in 0..n {
        m.insert(i, make_params(n, i));
    }
    m
}

fn registry() -> StaticModuleRegistry {
    StaticModuleRegistry { kinds: vec!["dummy".to_string()] }
}

fn timing() -> BroadcastSettings {
    BroadcastSettings::default_timing()
}

fn run_dealer(n: u16) -> Vec<(u16, ServerConfig)> {
    let params = dealer_params(n);
    let out = ServerConfig::trusted_dealer_gen(&params, &registry(), &"1.0.0".to_string(), timing());
    out.into_entries()
}

#[test]
fn dealer_produces_one_config_per_peer() {
    let out = run_dealer(3);
    assert_eq!(out.len(), 3);
    for (i, (id, cfg)) in out.iter().enumerate() {
        assert_eq!(*id, i as u16);
        assert_eq!(cfg.local.identity.0, i as u16);
    }
}

#[test]
fn dealer_consensus_sections_identical() {
    // consensus identity on the dealer path: every peer's consensus section
    // hashes to the same value
    let out = run_dealer(4);
    let h0 = consensus_hash(&out[0].1.consensus);
    for (_, cfg) in &out {
        assert_eq!(consensus_hash(&cfg.consensus), h0);
    }
}

#[test]
fn dealer_two_runs_agree_on_everything_but_keys() {
    // determinism of the trusted-dealer path: independent runs differ only
    // in the sampled broadcast key material
    let a = run_dealer(3);
    let b = run_dealer(3);
    for ((_, ca), (_, cb)) in a.iter().zip(b.iter()) {
        assert_eq!(ca.consensus.code_version, cb.consensus.code_version);
        assert_eq!(
            ca.consensus.broadcast_rounds_per_session,
            cb.consensus.broadcast_rounds_per_session
        );
        let ea = ca.consensus.api_endpoints.entries();
        let eb = cb.consensus.api_endpoints.entries();
        assert_eq!(ea.len(), eb.len());
        for (x, y) in ea.iter().zip(eb.iter()) {
            assert_eq!(x.0, y.0);
            assert_eq!(x.1.name, y.1.name);
            assert_eq!(x.1.url, y.1.url);
        }
        let ta = ca.consensus.tls_certs.entries();
        let tb = cb.consensus.tls_certs.entries();
        assert_eq!(ta.len(), tb.len());
        for (x, y) in ta.iter().zip(tb.iter()) {
            assert_eq!(x.0, y.0);
            assert_eq!(x.1, y.1);
        }
        assert_eq!(ca.consensus.meta, cb.consensus.meta);
        assert_eq!(ca.local.identity.0, cb.local.identity.0);
        assert_eq!(ca.local.max_connections, cb.local.max_connections);
        assert_eq!(ca.local.broadcast_round_delay_ms, cb.local.broadcast_round_delay_ms);
        assert_eq!(ca.private.api_auth, cb.private.api_auth);
        assert_eq!(ca.private.tls_key, cb.private.tls_key);
        // the random material differs between independent runs
        assert_ne!(ca.private.broadcast_secret_key, cb.private.broadcast_secret_key);
    }
}

#[test]
fn single_peer_run_completes_without_network() {
    // the degenerate single-peer federation generates at once, on the
    // trusted-dealer path, with no network action
    let params = make_params(1, 0);
    let (session, action) = DkgSession::start(params, &registry(), "1.0.0".to_string(), timing());
    let cfg = match action {
        DkgAction::Complete(c) => c,
        _ => panic!("single-peer generation must complete at once"),
    };
    assert_eq!(cfg.local.identity.0, 0);

    // it matches what the dealer path produces for the same parameter set,
    // up to the sampled keys
    let dealer = run_dealer(1);
    let (_, ref d) = dealer[0];
    assert_eq!(cfg.consensus.code_version, d.consensus.code_version);
    let ea = cfg.consensus.api_endpoints.entries();
    let eb = d.consensus.api_endpoints.entries();
    assert_eq!(ea.len(), eb.len());
    for (x, y) in ea.iter().zip(eb.iter()) {
        assert_eq!(x.0, y.0);
        assert_eq!(x.1.url, y.1.url);
    }
    assert_eq!(cfg.private.api_auth, d.private.api_auth);
    // the session is finished; any further event is refused
    let mut session = session;
    let after = session.step(DkgEvent::Connectivity(true));
    assert!(matches!(after, DkgAction::Fail(_)));
}

fn dummy_module_config() -> ServerModuleConfig {
    ServerModuleConfig {
        local: ModuleRawConfig { kind: "dummy".to_string(), value: vec![] },
        private: ModuleRawConfig { kind: "dummy".to_string(), value: vec![] },
        consensus: ServerModuleConsensusConfig { kind: "dummy".to_string(), config: vec![7, 7, 7] },
    }
}

#[test]
fn four_peer_distributed_run_completes() {
    let n = 4u16;
    let mut sessions: Vec<DkgSession> = Vec::new();
    for i in 0..n {
        let (s, a) = DkgSession::start(make_params(n, i), &registry(), "1.0.0".to_string(), timing());
        assert!(matches!(a, DkgAction::WaitForConnectivity));
        sessions.push(s);
    }

    // connectivity opens; every peer broadcasts its peer-table checksum
    let mut checksums: Vec<Vec<u8>> = Vec::new();
    for s in sessions.iter_mut() {
        match s.step(DkgEvent::Connectivity(true)) {
            DkgAction::BroadcastChecksumAndAwait(h, _) => checksums.push(h),
            _ => panic!("expected the first barrier to open"),
        }
    }
    // identical rosters: identical checksums
    for h in &checksums {
        assert_eq!(h, &checksums[0]);
    }

    // every peer receives the others' checksums; the barrier completes
    let mut pks: Vec<Vec<u8>> = Vec::new();
    for (i, s) in sessions.iter_mut().enumerate() {
        let mut last = None;
        for j in 0..n {
            if j as usize == i {
                continue;
            }
            last = Some(s.step(DkgEvent::ChecksumFrom(PeerId(j), checksums[j as usize].clone())));
        }
        match last.unwrap() {
            DkgAction::ExchangeBroadcastKeys(pk) => pks.push(pk),
            _ => panic!("expected the key exchange after the barrier"),
        }
    }

    // the exchange primitive hands every peer the full key table
    let mut table = SortedMap::new();
    for (i, pk) in pks.iter().enumerate() {
        table.insert(i as u16, pk.clone());
    }
    for s in sessions.iter_mut() {
        let mut t = SortedMap::new();
        for (i, pk) in pks.iter().enumerate() {
            t.insert(i as u16, pk.clone());
        }
        match s.step(DkgEvent::KeysExchanged(t)) {
            DkgAction::RunModuleGen(id, kind, params) => {
                assert_eq!(id, 0);
                assert_eq!(kind, "dummy");
                assert_eq!(params, vec![7, 7, 7]);
            },
            _ => panic!("expected the module generation to start"),
        }
    }
    drop(table);

    // the one module generates; every peer assembles and opens the final
    // barrier
    let mut post: Vec<Vec<u8>> = Vec::new();
    for s in sessions.iter_mut() {
        match s.step(DkgEvent::ModuleGenerated(dummy_module_config())) {
            DkgAction::BroadcastChecksumAndAwait(h, _) => post.push(h),
            _ => panic!("expected the final barrier to open"),
        }
    }
    // consensus identity: the assembled consensus sections hash identically
    for h in &post {
        assert_eq!(h, &post[0]);
    }

    // the final barrier completes and every peer gets its configuration
    let mut configs: Vec<ServerConfig> = Vec::new();
    for (i, s) in sessions.iter_mut().enumerate() {
        let mut last = None;
        for j in 0..n {
            if j as usize == i {
                continue;
            }
            last = Some(s.step(DkgEvent::ChecksumFrom(PeerId(j), post[j as usize].clone())));
        }
        match last.unwrap() {
            DkgAction::Complete(c) => configs.push(c),
            _ => panic!("expected completion"),
        }
    }
    let h0 = consensus_hash(&configs[0].consensus);
    for c in &configs {
        assert_eq!(consensus_hash(&c.consensus), h0);
    }
}

#[test]
fn checksum_mismatch_aborts_before_module_generation() {
    // one peer assembled a different roster: every peer must fail at the
    // first barrier, before any module generation, and no configuration is
    // produced anywhere
    let n = 4u16;
    let mut sessions: Vec<DkgSession> = Vec::new();
    let mut checksums: Vec<Vec<u8>> = Vec::new();
    for i in 0..n {
        let mut params = make_params(n, i);
        if i == 2 {
            // peer 2 holds a diverging peer table
            let mut peers = SortedMap::new();
            for j in 0..n {
                let mut info = peer_info(j);
                if j == 1 {
                    info.name = "impostor".to_string();
                }
                peers.insert(j, info);
            }
            params.consensus.peers = peers;
        }
        let (mut s, _) = DkgSession::start(params, &registry(), "1.0.0".to_string(), timing());
        match s.step(DkgEvent::Connectivity(true)) {
            DkgAction::BroadcastChecksumAndAwait(h, _) => checksums.push(h),
            _ => panic!("expected the first barrier to open"),
        }
        sessions.push(s);
    }
    assert_ne!(checksums[2], checksums[0]);

    let mut module_gen_started = 0;
    let mut completed = 0;
    for (i, s) in sessions.iter_mut().enumerate() {
        let mut failed = false;
        for j in 0..n {
            if j as usize == i || failed {
                continue;
            }
            match s.step(DkgEvent::ChecksumFrom(PeerId(j), checksums[j as usize].clone())) {
                DkgAction::Fail(_) => failed = true,
                DkgAction::RunModuleGen(..) => module_gen_started += 1,
                DkgAction::Complete(_) => completed += 1,
                _ => {},
            }
        }
        assert!(failed, "every peer must detect the diverging checksum");
    }
    assert_eq!(module_gen_started, 0);
    assert_eq!(completed, 0);
}

#[test]
fn transport_shutdown_is_fatal() {
    let (mut s, _) = DkgSession::start(make_params(3, 0), &registry(), "1.0.0".to_string(), timing());
    let a = s.step(DkgEvent::TransportClosed);
    assert!(matches!(a, DkgAction::Fail(_)));
    let b = s.step(DkgEvent::Connectivity(true));
    assert!(matches!(b, DkgAction::Fail(_)));
}

#[test]
fn unexpected_event_fails_the_machine() {
    // an event no phase expects is a driver fault: the machine fails and
    // never completes
    let (mut s, _) = DkgSession::start(make_params(3, 0), &registry(), "1.0.0".to_string(), timing());
    let a = s.step(DkgEvent::ChecksumFrom(PeerId(1), vec![0u8; 32]));
    assert!(matches!(a, DkgAction::Fail(_)));
    let b = s.step(DkgEvent::Connectivity(true));
    assert!(matches!(b, DkgAction::Fail(_)));
}

#[test]
fn default_broadcast_timing() {
    assert_eq!(fedimint_server::config::default_broadcast_rounds_per_session(), 3600);
    let t = BroadcastSettings::default_timing();
    assert_eq!(t.rounds_per_session, 3600);
    assert_eq!(t.round_delay_ms, 50);
}
