//! The trusted-dealer generation path: one party generates every peer's key
//! material and assembles every peer's configuration in one process.
//!
//! Not Byzantine-safe; it exists for single-operator setups and as the
//! degenerate single-peer path of the distributed protocol. The contract
//! pins every field of every produced configuration, up to the sampled key
//! material, which carries the determinism and consensus-identity laws.

use vstd::prelude::*;

use crate::config::{
    spec_server_config_from, BroadcastSettings, ConfigGenParams, ConfigGenParamsV, ServerConfig,
    ServerConfigV,
};
use crate::crypto::{broadcast_public_key_of, generate_broadcast_keypair, valid_broadcast_secret_key};
use crate::registry::ModuleInitRegistry;
use crate::sorted_map::{
    entries_sorted, lemma_seq_lookup_entries, lemma_seq_lookup_in, lemma_seq_lookup_some,
    seq_lookup, SortedMap,
};
use crate::types::{clone_bytes, clone_bytes_map, ServerModuleConfig, ServerModuleConfigV};
use crate::PeerId;

verus! {

/// The keys of a sequence of keyed records, in stored order.
pub open spec fn spec_keys<T>(s: Seq<(u16, T)>) -> Seq<u16> {
    s.map_values(|e: (u16, T)| e.0)
}

/// The broadcast public key table that a dealer output carries: each peer's
/// public key is the one derived from the secret key stored in that peer's
/// own private section.
pub open spec fn spec_dealer_bpks(r: Seq<(u16, ServerConfigV)>) -> Seq<(u16, Seq<u8>)> {
    r.map_values(
        |e: (u16, ServerConfigV)| (e.0, broadcast_public_key_of(e.1.private.broadcast_secret_key)),
    )
}

/// The per-module configurations the registry's trusted-dealer procedures
/// return for peer 0's declared modules.
pub open spec fn spec_dealer_module_cfgs<R: ModuleInitRegistry>(
    registry: &R,
    p0: ConfigGenParamsV,
) -> Seq<(u16, Seq<(u16, ServerModuleConfigV)>)> {
    p0.consensus.modules.map_values(
        |e: (u16, crate::config::ModuleGenParamsV)| (
            e.0,
            registry.spec_trusted_dealer_gen(e.1.kind, spec_keys(p0.consensus.peers), e.1.params),
        ),
    )
}

/// One peer's slice of the per-module configurations.
pub open spec fn spec_mods_for_peer(
    mods: Seq<(u16, Seq<(u16, ServerModuleConfigV)>)>,
    id: u16,
) -> Seq<(u16, ServerModuleConfigV)> {
    mods.map_values(
        |e: (u16, Seq<(u16, ServerModuleConfigV)>)| (e.0, seq_lookup(e.1, id).unwrap()),
    )
}

/// What the trusted dealer guarantees of its output `r`, given the per-peer
/// parameters, the collected per-module configurations, the code version and
/// the round timing:
///
/// - one configuration per peer of peer 0's declared roster, in id order;
/// - every configuration is the standard projection of that peer's own
///   parameters, the shared broadcast key table, that peer's sampled secret
///   key and that peer's slice of the module configurations;
/// - every secret key is valid and derives the public key stored for its
///   peer in the shared table.
pub open spec fn dealer_output_ok(
    params: Seq<(u16, ConfigGenParamsV)>,
    mods: Seq<(u16, Seq<(u16, ServerModuleConfigV)>)>,
    code_version: Seq<char>,
    timing: BroadcastSettings,
    r: Seq<(u16, ServerConfigV)>,
) -> bool {
    let p0 = seq_lookup(params, 0).unwrap();
    let roster = spec_keys(p0.consensus.peers);
    &&& seq_lookup(params, 0) is Some
    &&& entries_sorted(r)
    &&& spec_keys(r) == roster
    &&& (forall|mi: int|
        0 <= mi < mods.len() ==> spec_keys((#[trigger] mods[mi]).1) == roster)
    &&& (forall|mi: int, a: int, b: int|
        0 <= mi < mods.len() && 0 <= a < (#[trigger] mods[mi]).1.len() && 0 <= b
            < mods[mi].1.len() ==> (#[trigger] mods[mi].1[a]).1.consensus == (
        #[trigger] mods[mi].1[b]).1.consensus)
    &&& (forall|i: int|
        0 <= i < r.len() ==> seq_lookup(params, (#[trigger] r[i]).0) is Some)
    &&& (forall|i: int|
        0 <= i < r.len() ==> valid_broadcast_secret_key(
            (#[trigger] r[i]).1.private.broadcast_secret_key,
        ))
    &&& (forall|i: int|
        0 <= i < r.len() ==> (#[trigger] r[i]).1 == spec_server_config_from(
            seq_lookup(params, r[i].0).unwrap(),
            PeerId(r[i].0),
            spec_dealer_bpks(r),
            r[i].1.private.broadcast_secret_key,
            spec_mods_for_peer(mods, r[i].0),
            code_version,
            timing,
        ))
}

impl ServerConfig {
    /// Single-authority generation: sample every peer's broadcast keypair,
    /// run every declared module's trusted-dealer generation once, and
    /// assemble each peer's configuration by the standard projection.
    #[verifier::rlimit(100)]
    pub fn trusted_dealer_gen<R: ModuleInitRegistry>(
        params: &SortedMap<ConfigGenParams>,
        registry: &R,
        code_version: &String,
        timing: BroadcastSettings,
    ) -> (r: SortedMap<ServerConfig>)
        requires
            params.wf(),
            forall|j: int|
                0 <= j < params.spec_len() ==> (#[trigger] params.entries_seq()[j]).1.wf(),
            seq_lookup(params.dseq(), 0) is Some,
            // every peer of peer 0's roster has parameters
            forall|j: int|
                0 <= j < seq_lookup(params.dseq(), 0).unwrap().consensus.peers.len()
                    ==> seq_lookup(
                    params.dseq(),
                    (#[trigger] seq_lookup(params.dseq(), 0).unwrap().consensus.peers[j]).0,
                ) is Some,
            // every declared module kind has a registered implementation
            forall|j: int|
                0 <= j < seq_lookup(params.dseq(), 0).unwrap().consensus.modules.len()
                    ==> registry.registered(
                    (#[trigger] seq_lookup(
                        params.dseq(),
                        0,
                    ).unwrap().consensus.modules[j]).1.kind,
                ),
        ensures
            r.wf(),
            dealer_output_ok(
                params.dseq(),
                spec_dealer_module_cfgs(registry, seq_lookup(params.dseq(), 0).unwrap()),
                code_version@,
                timing,
                r.dseq(),
            ),
            // consensus identity: when every peer's parameters carry the
            // same consensus section, so do all produced configurations
            (forall|a: int, b: int|
                0 <= a < params.dseq().len() && 0 <= b < params.dseq().len() ==> (
                #[trigger] params.dseq()[a]).1.consensus == (
                #[trigger] params.dseq()[b]).1.consensus) ==> (forall|i: int, j: int|
                0 <= i < r.dseq().len() && 0 <= j < r.dseq().len() ==> (
                #[trigger] r.dseq()[i]).1.consensus == (#[trigger] r.dseq()[j]).1.consensus),
    {
        let ghost p0v = seq_lookup(params.dseq(), 0).unwrap();
        let ghost roster = spec_keys(p0v.consensus.peers);
        let ghost modsv = spec_dealer_module_cfgs(registry, p0v);

        proof {
            params.lemma_dget_is_dseq_lookup(0);
        }
        let peer0 = match params.get(0) {
            Some(p) => p,
            None => vstd::pervasive::unreached(),
        };
        proof {
            assert(peer0.deep_view() == p0v);
        }
        let peer_ids = peer0.peer_ids();
        proof {
            assert(peer_ids@.map_values(|p: PeerId| p.0) == roster);
            assert(peer_ids@.len() == roster.len());
            assert forall|a: int, b: int|
                0 <= a < b < peer_ids@.len() implies (#[trigger] peer_ids@[a]).0 < (
            #[trigger] peer_ids@[b]).0 by {
                let ids = peer_ids@.map_values(|p: PeerId| p.0);
                assert(ids[a] == peer_ids@[a].0);
                assert(ids[b] == peer_ids@[b].0);
                assert(roster[a] == p0v.consensus.peers[a].0);
                assert(roster[b] == p0v.consensus.peers[b].0);
                assert(p0v.consensus.peers[a].0 == peer0.consensus.peers.entries_seq()[a].0);
                assert(p0v.consensus.peers[b].0 == peer0.consensus.peers.entries_seq()[b].0);
            }
            assert forall|j: int| 0 <= j < roster.len() implies (#[trigger] roster[j])
                == peer_ids@[j].0 by {
                let ids = peer_ids@.map_values(|p: PeerId| p.0);
                assert(ids[j] == peer_ids@[j].0);
            }
        }

        // sample one broadcast keypair per peer
        let mut bpks: SortedMap<Vec<u8>> = SortedMap::new();
        let mut bsks: SortedMap<Vec<u8>> = SortedMap::new();
        let mut i: usize = 0;
        while i < peer_ids.len()
            invariant
                forall|a: int, b: int|
                    0 <= a < b < peer_ids@.len() ==> (#[trigger] peer_ids@[a]).0 < (
                    #[trigger] peer_ids@[b]).0,
                0 <= i <= peer_ids@.len(),
                bpks.wf(),
                bsks.wf(),
                bpks.entries_seq().len() == i,
                bsks.entries_seq().len() == i,
                forall|j: int|
                    0 <= j < i ==> (#[trigger] bpks.entries_seq()[j]).0 == peer_ids@[j].0,
                forall|j: int|
                    0 <= j < i ==> (#[trigger] bsks.entries_seq()[j]).0 == peer_ids@[j].0,
                forall|j: int|
                    0 <= j < i ==> (#[trigger] bpks.dseq()[j]).1 == broadcast_public_key_of(
                        bsks.dseq()[j].1,
                    ),
                forall|j: int|
                    0 <= j < i ==> valid_broadcast_secret_key((#[trigger] bsks.dseq()[j]).1),
            decreases peer_ids@.len() - i,
        {
            let k = peer_ids[i].0;
            let (sk, pk) = generate_broadcast_keypair();
            proof {
                assert forall|j: int|
                    0 <= j < bpks.spec_len() implies (#[trigger] bpks.entries_seq()[j]).0 < k by {
                    assert(peer_ids@[j].0 < peer_ids@[i as int].0);
                }
                assert forall|j: int|
                    0 <= j < bsks.spec_len() implies (#[trigger] bsks.entries_seq()[j]).0 < k by {
                    assert(peer_ids@[j].0 < peer_ids@[i as int].0);
                }
            }
            proof {
                assert(pk.deep_view() =~= pk@);
                assert(sk.deep_view() =~= sk@);
            }
            bpks.push_back(k, pk);
            bsks.push_back(k, sk);
            i += 1;
            proof {
                assert(bpks.dseq()[i - 1].1 == broadcast_public_key_of(bsks.dseq()[i - 1].1));
                assert(valid_broadcast_secret_key(bsks.dseq()[i - 1].1));
            }
        }

        // run every declared module's trusted-dealer generation once
        let mut module_cfgs: SortedMap<SortedMap<ServerModuleConfig>> = SortedMap::new();
        let mentries = peer0.consensus.modules.entries();
        let mut mi: usize = 0;
        while mi < mentries.len()
            invariant
                peer0.deep_view() == p0v,
                peer0.wf(),
                mentries@ == peer0.consensus.modules.entries_seq(),
                p0v == seq_lookup(params.dseq(), 0).unwrap(),
                roster == spec_keys(p0v.consensus.peers),
                modsv == spec_dealer_module_cfgs(registry, p0v),
                peer_ids@.map_values(|p: PeerId| p.0) == roster,
                forall|a: int, b: int|
                    0 <= a < b < peer_ids@.len() ==> (#[trigger] peer_ids@[a]).0 < (
                    #[trigger] peer_ids@[b]).0,
                forall|j: int|
                    0 <= j < mentries@.len() ==> registry.registered(
                        (#[trigger] p0v.consensus.modules[j]).1.kind,
                    ),
                0 <= mi <= mentries@.len(),
                module_cfgs.wf(),
                module_cfgs.entries_seq().len() == mi,
                forall|j: int|
                    0 <= j < mi ==> (#[trigger] module_cfgs.entries_seq()[j]).0 == mentries@[j].0,
                forall|j: int|
                    0 <= j < mi ==> (#[trigger] module_cfgs.entries_seq()[j]).1.wf(),
                module_cfgs.dseq() =~= modsv.subrange(0, mi as int),
                forall|j: int| 0 <= j < mi ==> spec_keys((#[trigger] modsv[j]).1) == roster,
                forall|j: int, a: int, b: int|
                    0 <= j < mi && 0 <= a < (#[trigger] modsv[j]).1.len() && 0 <= b
                        < modsv[j].1.len() ==> (#[trigger] modsv[j].1[a]).1.consensus == (
                    #[trigger] modsv[j].1[b]).1.consensus,
            decreases mentries@.len() - mi,
        {
            let k = mentries[mi].0;
            proof {
                assert(p0v.consensus.modules == peer0.consensus.modules.dseq());
                assert(p0v.consensus.modules[mi as int]
                    == (mentries@[mi as int].0, mentries@[mi as int].1.deep_view()));
                assert(registry.registered(mentries@[mi as int].1.kind@));
                assert(modsv[mi as int] == (
                    p0v.consensus.modules[mi as int].0,
                    registry.spec_trusted_dealer_gen(
                        p0v.consensus.modules[mi as int].1.kind,
                        spec_keys(p0v.consensus.peers),
                        p0v.consensus.modules[mi as int].1.params,
                    ),
                ));
            }
            let generated = registry.trusted_dealer_gen(
                &mentries[mi].1.kind,
                &peer_ids,
                &mentries[mi].1.params,
            );
            let m = match generated {
                Some(m) => m,
                None => vstd::pervasive::unreached(),
            };
            proof {
                assert forall|j: int|
                    0 <= j < module_cfgs.spec_len() implies (
                #[trigger] module_cfgs.entries_seq()[j]).0 < k by {
                    assert(mentries@[j].0 < mentries@[mi as int].0);
                }
                assert(m.dseq() == registry.spec_trusted_dealer_gen(
                    mentries@[mi as int].1.kind@,
                    roster,
                    mentries@[mi as int].1.params@,
                ));
                assert(modsv[mi as int] == (k, m.dseq()));
                assert(spec_keys(modsv[mi as int].1) =~= roster);
            }
            module_cfgs.push_back(k, m);
            mi += 1;
            proof {
                assert(module_cfgs.dseq() =~= modsv.subrange(0, mi as int));
            }
        }
        proof {
            assert(modsv.subrange(0, modsv.len() as int) =~= modsv);
            assert(module_cfgs.dseq() == modsv);
        }

        // assemble every peer's configuration
        let mut out: SortedMap<ServerConfig> = SortedMap::new();
        let mut pi: usize = 0;
        while pi < peer_ids.len()
            invariant
                params.wf(),
                forall|j: int|
                    0 <= j < params.spec_len() ==> (#[trigger] params.entries_seq()[j]).1.wf(),
                seq_lookup(params.dseq(), 0) is Some,
                p0v == seq_lookup(params.dseq(), 0).unwrap(),
                roster == spec_keys(p0v.consensus.peers),
                modsv == spec_dealer_module_cfgs(registry, p0v),
                peer_ids@.map_values(|p: PeerId| p.0) == roster,
                forall|a: int, b: int|
                    0 <= a < b < peer_ids@.len() ==> (#[trigger] peer_ids@[a]).0 < (
                    #[trigger] peer_ids@[b]).0,
                forall|j: int|
                    0 <= j < roster.len() ==> seq_lookup(params.dseq(), #[trigger] roster[j])
                        is Some,
                bpks.wf(),
                bsks.wf(),
                bpks.entries_seq().len() == roster.len(),
                bsks.entries_seq().len() == roster.len(),
                forall|j: int|
                    0 <= j < roster.len() ==> (#[trigger] bpks.entries_seq()[j]).0
                        == peer_ids@[j].0,
                forall|j: int|
                    0 <= j < roster.len() ==> (#[trigger] bsks.entries_seq()[j]).0
                        == peer_ids@[j].0,
                forall|j: int|
                    0 <= j < roster.len() ==> (#[trigger] bpks.dseq()[j]).1
                        == broadcast_public_key_of(bsks.dseq()[j].1),
                forall|j: int|
                    0 <= j < roster.len() ==> valid_broadcast_secret_key(
                        (#[trigger] bsks.dseq()[j]).1,
                    ),
                module_cfgs.wf(),
                module_cfgs.dseq() == modsv,
                module_cfgs.entries_seq().len() == modsv.len(),
                forall|j: int|
                    0 <= j < modsv.len() ==> (#[trigger] module_cfgs.entries_seq()[j]).1.wf(),
                forall|mj: int|
                    0 <= mj < modsv.len() ==> spec_keys((#[trigger] modsv[mj]).1) == roster,
                forall|mj: int, a: int, b: int|
                    0 <= mj < modsv.len() && 0 <= a < (#[trigger] modsv[mj]).1.len() && 0 <= b
                        < modsv[mj].1.len() ==> (#[trigger] modsv[mj].1[a]).1.consensus == (
                    #[trigger] modsv[mj].1[b]).1.consensus,
                0 <= pi <= peer_ids@.len(),
                out.wf(),
                out.entries_seq().len() == pi,
                forall|j: int| 0 <= j < pi ==> (#[trigger] out.entries_seq()[j]).0
                    == peer_ids@[j].0,
                forall|j: int|
                    0 <= j < pi ==> valid_broadcast_secret_key(
                        (#[trigger] out.dseq()[j]).1.private.broadcast_secret_key,
                    ),
                forall|j: int|
                    0 <= j < pi ==> (#[trigger] out.dseq()[j]).1.private.broadcast_secret_key
                        == bsks.dseq()[j].1,
                forall|j: int|
                    0 <= j < pi ==> (#[trigger] out.dseq()[j]).1 == spec_server_config_from(
                        seq_lookup(params.dseq(), out.dseq()[j].0).unwrap(),
                        PeerId(out.dseq()[j].0),
                        bpks.dseq(),
                        bsks.dseq()[j].1,
                        spec_mods_for_peer(modsv, out.dseq()[j].0),
                        code_version@,
                        timing,
                    ),
            decreases peer_ids@.len() - pi,
        {
            let id = peer_ids[pi].0;

            // this peer's slice of the module configurations
            let mut peer_mods: SortedMap<ServerModuleConfig> = SortedMap::new();
            let centries = module_cfgs.entries();
            let mut ci: usize = 0;
            while ci < centries.len()
                invariant
                    module_cfgs.wf(),
                    centries@ == module_cfgs.entries_seq(),
                    module_cfgs.dseq() == modsv,
                    centries@.len() == modsv.len(),
                    forall|j: int|
                        0 <= j < modsv.len() ==> (#[trigger] centries@[j]).1.wf(),
                    forall|mj: int|
                        0 <= mj < modsv.len() ==> spec_keys((#[trigger] modsv[mj]).1) == roster,
                    peer_ids@.map_values(|p: PeerId| p.0) == roster,
                    0 <= pi < peer_ids@.len(),
                    id == peer_ids@[pi as int].0,
                    0 <= ci <= centries@.len(),
                    peer_mods.wf(),
                    peer_mods.entries_seq().len() == ci,
                    forall|j: int|
                        0 <= j < ci ==> (#[trigger] peer_mods.entries_seq()[j]).0
                            == centries@[j].0,
                    peer_mods.dseq() =~= spec_mods_for_peer(modsv, id).subrange(0, ci as int),
                decreases centries@.len() - ci,
            {
                let k = centries[ci].0;
                proof {
                    assert(modsv[ci as int] == (centries@[ci as int].0,
                        centries@[ci as int].1.dseq()));
                    assert(spec_keys(modsv[ci as int].1) == roster);
                    assert(roster[pi as int] == id);
                    assert(spec_keys(modsv[ci as int].1)[pi as int] == id);
                    assert(modsv[ci as int].1[pi as int].0 == id);
                    lemma_seq_lookup_some(modsv[ci as int].1, id);
                    centries@[ci as int].1.lemma_dget_is_dseq_lookup(id);
                }
                let found = match centries[ci].1.get(id) {
                    Some(c) => c,
                    None => vstd::pervasive::unreached(),
                };
                proof {
                    assert forall|j: int|
                        0 <= j < peer_mods.spec_len() implies (
                    #[trigger] peer_mods.entries_seq()[j]).0 < k by {
                        assert(centries@[j].0 < centries@[ci as int].0);
                    }
                    assert(found.deep_view() == seq_lookup(modsv[ci as int].1, id).unwrap());
                }
                peer_mods.push_back(k, found.clone());
                ci += 1;
                proof {
                    assert(spec_mods_for_peer(modsv, id)[ci - 1] == (
                        modsv[ci - 1].0,
                        seq_lookup(modsv[ci - 1].1, id).unwrap(),
                    ));
                    assert(peer_mods.dseq() =~= spec_mods_for_peer(modsv, id).subrange(
                        0,
                        ci as int,
                    ));
                }
            }
            proof {
                assert(spec_mods_for_peer(modsv, id).subrange(
                    0,
                    spec_mods_for_peer(modsv, id).len() as int,
                ) =~= spec_mods_for_peer(modsv, id));
            }

            // this peer's own parameters and secret key
            proof {
                assert(roster[pi as int] == id);
                params.lemma_dget_is_dseq_lookup(id);
                bsks.lemma_dget_is_dseq_lookup(id);
                assert(bsks.entries_seq()[pi as int].0 == id);
                lemma_seq_lookup_entries(bsks.dseq(), id);
                assert(bsks.dseq()[pi as int].0 == id);
            }
            let my_params = match params.get(id) {
                Some(p) => p,
                None => vstd::pervasive::unreached(),
            };
            let my_sk = match bsks.get(id) {
                Some(s) => clone_bytes(s),
                None => vstd::pervasive::unreached(),
            };
            proof {
                assert(my_sk@ == seq_lookup(bsks.dseq(), id).unwrap());
                assert(my_sk@ == bsks.dseq()[pi as int].1);
                assert(my_params.deep_view() == seq_lookup(params.dseq(), id).unwrap());
                assert(exists|j: int|
                    0 <= j < params.spec_len() && (#[trigger] params.entries_seq()[j]).0 == id
                    && params.entries_seq()[j].1.deep_view() == my_params.deep_view()) by {
                    crate::sorted_map::lemma_seq_lookup_in(params.dseq(), id);
                }
            }
            let cfg = ServerConfig::from(
                my_params,
                PeerId(id),
                clone_bytes_map(&bpks),
                my_sk,
                &peer_mods,
                code_version.clone(),
                timing,
            );
            proof {
                assert forall|j: int|
                    0 <= j < out.spec_len() implies (#[trigger] out.entries_seq()[j]).0 < id by {
                    assert(peer_ids@[j].0 < peer_ids@[pi as int].0);
                }
            }
            out.push_back(id, cfg);
            pi += 1;
            proof {
                reveal(spec_server_config_from);
                assert(out.dseq()[pi - 1].1 == cfg.deep_view());
                assert(cfg.deep_view().private.broadcast_secret_key == my_sk@);
            }
        }

        proof {
            let rd = out.dseq();
            assert(spec_keys(rd) =~= roster);
            assert(entries_sorted(rd)) by {
                assert forall|a: int, b: int|
                    0 <= a < b < rd.len() implies (#[trigger] rd[a]).0 < (#[trigger] rd[b]).0 by {
                    assert(rd[a].0 == out.entries_seq()[a].0);
                    assert(rd[b].0 == out.entries_seq()[b].0);
                    assert(peer_ids@[a].0 < peer_ids@[b].0);
                }
            }
            // the shared table is the one derived from the outputs' secrets
            assert(spec_dealer_bpks(rd) =~= bpks.dseq()) by {
                assert forall|j: int|
                    0 <= j < rd.len() implies #[trigger] spec_dealer_bpks(rd)[j]
                    == bpks.dseq()[j] by {
                    assert(rd[j].1.private.broadcast_secret_key == bsks.dseq()[j].1);
                    assert(bpks.dseq()[j].1 == broadcast_public_key_of(bsks.dseq()[j].1));
                    assert(bpks.dseq()[j].0 == peer_ids@[j].0);
                    assert(rd[j].0 == peer_ids@[j].0);
                }
            }
            let mods = modsv;
            let rr = out.dseq();
            assert(seq_lookup(params.dseq(), 0) is Some);
            assert(spec_keys(rr) == roster);
            assert(forall|mi2: int|
                0 <= mi2 < mods.len() ==> spec_keys((#[trigger] mods[mi2]).1) == roster);
            assert(forall|mi2: int, a: int, b: int|
                0 <= mi2 < mods.len() && 0 <= a < (#[trigger] mods[mi2]).1.len() && 0 <= b
                    < mods[mi2].1.len() ==> (#[trigger] mods[mi2].1[a]).1.consensus == (
                #[trigger] mods[mi2].1[b]).1.consensus);
            assert forall|i2: int|
                0 <= i2 < rr.len() implies seq_lookup(params.dseq(), (#[trigger] rr[i2]).0)
                is Some by {
                assert(rr[i2].0 == peer_ids@[i2].0);
                assert(roster[i2] == peer_ids@[i2].0);
            }
            assert(forall|i2: int|
                0 <= i2 < rr.len() ==> valid_broadcast_secret_key(
                    (#[trigger] rr[i2]).1.private.broadcast_secret_key,
                ));
            assert forall|i2: int|
                0 <= i2 < rr.len() implies (#[trigger] rr[i2]).1 == spec_server_config_from(
                seq_lookup(params.dseq(), rr[i2].0).unwrap(),
                PeerId(rr[i2].0),
                spec_dealer_bpks(rr),
                rr[i2].1.private.broadcast_secret_key,
                spec_mods_for_peer(mods, rr[i2].0),
                code_version@,
                timing,
            ) by {
                assert(rr[i2].1 == spec_server_config_from(
                    seq_lookup(params.dseq(), rr[i2].0).unwrap(),
                    PeerId(rr[i2].0),
                    bpks.dseq(),
                    bsks.dseq()[i2].1,
                    spec_mods_for_peer(mods, rr[i2].0),
                    code_version@,
                    timing,
                ));
                assert(rr[i2].1.private.broadcast_secret_key == bsks.dseq()[i2].1);
            }
            assert(dealer_output_ok(params.dseq(), modsv, code_version@, timing, rr));
            if forall|a: int, b: int|
                0 <= a < params.dseq().len() && 0 <= b < params.dseq().len() ==> (
                #[trigger] params.dseq()[a]).1.consensus == (
                #[trigger] params.dseq()[b]).1.consensus {
                lemma_dealer_consensus_identity(
                    params.dseq(),
                    modsv,
                    code_version@,
                    timing,
                    rr,
                );
            }
        }
        out
    }
}

/// Determinism of the trusted-dealer path: two runs over the same parameters
/// and module configurations differ only in the sampled broadcast key
/// material. Every other field of every peer's configuration — shapes, both
/// endpoint tables, certificates, meta values, the whole local section and
/// every non-key private field — is identical across the runs.
pub proof fn lemma_dealer_deterministic(
    params: Seq<(u16, ConfigGenParamsV)>,
    mods: Seq<(u16, Seq<(u16, ServerModuleConfigV)>)>,
    code_version: Seq<char>,
    timing: BroadcastSettings,
    r1: Seq<(u16, ServerConfigV)>,
    r2: Seq<(u16, ServerConfigV)>,
)
    requires
        dealer_output_ok(params, mods, code_version, timing, r1),
        dealer_output_ok(params, mods, code_version, timing, r2),
    ensures
        spec_keys(r1) == spec_keys(r2),
        forall|i: int|
            0 <= i < r1.len() ==> {
                let c1 = (#[trigger] r1[i]).1;
                let c2 = r2[i].1;
                {
                    &&& c1.consensus.code_version == c2.consensus.code_version
                    &&& c1.consensus.version == c2.consensus.version
                    &&& c1.consensus.broadcast_rounds_per_session
                        == c2.consensus.broadcast_rounds_per_session
                    &&& c1.consensus.api_endpoints == c2.consensus.api_endpoints
                    &&& c1.consensus.iroh_endpoints == c2.consensus.iroh_endpoints
                    &&& c1.consensus.tls_certs == c2.consensus.tls_certs
                    &&& c1.consensus.modules == c2.consensus.modules
                    &&& c1.consensus.meta == c2.consensus.meta
                    &&& c1.local == c2.local
                    &&& c1.private.api_auth == c2.private.api_auth
                    &&& c1.private.tls_key == c2.private.tls_key
                    &&& c1.private.iroh_api_sk == c2.private.iroh_api_sk
                    &&& c1.private.iroh_p2p_sk == c2.private.iroh_p2p_sk
                    &&& c1.private.modules == c2.private.modules
                }
            },
{
    reveal(spec_server_config_from);
    let p0 = seq_lookup(params, 0).unwrap();
    let roster = spec_keys(p0.consensus.peers);
    assert(spec_keys(r1).len() == r1.len());
    assert(spec_keys(r2).len() == r2.len());
    assert(r1.len() == roster.len());
    assert(r2.len() == roster.len());
    assert forall|i: int| 0 <= i < r1.len() implies (#[trigger] r1[i]).0 == r2[i].0 by {
        assert(spec_keys(r1)[i] == r1[i].0);
        assert(spec_keys(r2)[i] == r2[i].0);
    }
    assert forall|i: int|
        0 <= i < r1.len() implies {
            let c1 = (#[trigger] r1[i]).1;
            let c2 = r2[i].1;
            {
                &&& c1.consensus.code_version == c2.consensus.code_version
                &&& c1.consensus.version == c2.consensus.version
                &&& c1.consensus.broadcast_rounds_per_session
                    == c2.consensus.broadcast_rounds_per_session
                &&& c1.consensus.api_endpoints == c2.consensus.api_endpoints
                &&& c1.consensus.iroh_endpoints == c2.consensus.iroh_endpoints
                &&& c1.consensus.tls_certs == c2.consensus.tls_certs
                &&& c1.consensus.modules == c2.consensus.modules
                &&& c1.consensus.meta == c2.consensus.meta
                &&& c1.local == c2.local
                &&& c1.private.api_auth == c2.private.api_auth
                &&& c1.private.tls_key == c2.private.tls_key
                &&& c1.private.iroh_api_sk == c2.private.iroh_api_sk
                &&& c1.private.iroh_p2p_sk == c2.private.iroh_p2p_sk
                &&& c1.private.modules == c2.private.modules
            }
        } by {
        assert(r1[i].1 == spec_server_config_from(
            seq_lookup(params, r1[i].0).unwrap(),
            PeerId(r1[i].0),
            spec_dealer_bpks(r1),
            r1[i].1.private.broadcast_secret_key,
            spec_mods_for_peer(mods, r1[i].0),
            code_version,
            timing,
        ));
        assert(r2[i].1 == spec_server_config_from(
            seq_lookup(params, r2[i].0).unwrap(),
            PeerId(r2[i].0),
            spec_dealer_bpks(r2),
            r2[i].1.private.broadcast_secret_key,
            spec_mods_for_peer(mods, r2[i].0),
            code_version,
            timing,
        ));
        assert(r1[i].0 == r2[i].0);
    }
}

/// Consensus identity on the trusted-dealer path: from one run over
/// parameters that all carry the same consensus section, every peer's
/// configuration holds the same consensus section.
pub proof fn lemma_dealer_consensus_identity(
    params: Seq<(u16, ConfigGenParamsV)>,
    mods: Seq<(u16, Seq<(u16, ServerModuleConfigV)>)>,
    code_version: Seq<char>,
    timing: BroadcastSettings,
    r: Seq<(u16, ServerConfigV)>,
)
    requires
        dealer_output_ok(params, mods, code_version, timing, r),
        forall|a: int, b: int|
            0 <= a < params.len() && 0 <= b < params.len() ==> (#[trigger] params[a]).1.consensus
                == (#[trigger] params[b]).1.consensus,
    ensures
        forall|i: int, j: int|
            0 <= i < r.len() && 0 <= j < r.len() ==> (#[trigger] r[i]).1.consensus == (
            #[trigger] r[j]).1.consensus,
{
    reveal(spec_server_config_from);
    let p0 = seq_lookup(params, 0).unwrap();
    let roster = spec_keys(p0.consensus.peers);
    assert(spec_keys(r).len() == r.len());
    assert(r.len() == roster.len());
    assert forall|i: int, j: int|
        0 <= i < r.len() && 0 <= j < r.len() implies (#[trigger] r[i]).1.consensus == (
    #[trigger] r[j]).1.consensus by {
        let pi = seq_lookup(params, r[i].0).unwrap();
        let pj = seq_lookup(params, r[j].0).unwrap();
        // both looked-up parameter records are entries of `params`, so their
        // consensus sections are equal by hypothesis
        lemma_seq_lookup_in(params, r[i].0);
        lemma_seq_lookup_in(params, r[j].0);
        let a = choose|a: int|
            0 <= a < params.len() && (#[trigger] params[a]).0 == r[i].0 && params[a].1
                == seq_lookup(params, r[i].0).unwrap();
        let b = choose|b: int|
            0 <= b < params.len() && (#[trigger] params[b]).0 == r[j].0 && params[b].1
                == seq_lookup(params, r[j].0).unwrap();
        assert(params[a].1.consensus == params[b].1.consensus);
        assert(pi.consensus == pj.consensus);
        // each peer's slice of the module configurations has, module by
        // module, the same consensus part
        let mi_mods = spec_mods_for_peer(mods, r[i].0).map_values(
            |e: (u16, ServerModuleConfigV)| (e.0, e.1.consensus),
        );
        let mj_mods = spec_mods_for_peer(mods, r[j].0).map_values(
            |e: (u16, ServerModuleConfigV)| (e.0, e.1.consensus),
        );
        assert forall|m: int| 0 <= m < mods.len() implies mi_mods[m] == mj_mods[m] by {
            assert(spec_keys(r)[i] == r[i].0);
            assert(spec_keys(r)[j] == r[j].0);
            assert(roster[i] == r[i].0);
            assert(roster[j] == r[j].0);
            assert(spec_keys(mods[m].1).len() == mods[m].1.len());
            assert(mods[m].1.len() == roster.len());
            assert(spec_keys(mods[m].1)[i] == mods[m].1[i].0);
            assert(spec_keys(mods[m].1)[j] == mods[m].1[j].0);
            assert(mods[m].1[i].0 == r[i].0);
            assert(mods[m].1[j].0 == r[j].0);
            lemma_seq_lookup_some(mods[m].1, r[i].0);
            lemma_seq_lookup_some(mods[m].1, r[j].0);
            lemma_seq_lookup_in(mods[m].1, r[i].0);
            lemma_seq_lookup_in(mods[m].1, r[j].0);
            let ei = choose|e: int|
                0 <= e < mods[m].1.len() && (#[trigger] mods[m].1[e]).0 == r[i].0 && mods[m].1[e].1
                    == seq_lookup(mods[m].1, r[i].0).unwrap();
            let ej = choose|e: int|
                0 <= e < mods[m].1.len() && (#[trigger] mods[m].1[e]).0 == r[j].0 && mods[m].1[e].1
                    == seq_lookup(mods[m].1, r[j].0).unwrap();
            assert(mods[m].1[ei].1.consensus == mods[m].1[ej].1.consensus);
            assert(spec_mods_for_peer(mods, r[i].0)[m] == (
                mods[m].0,
                seq_lookup(mods[m].1, r[i].0).unwrap(),
            ));
            assert(spec_mods_for_peer(mods, r[j].0)[m] == (
                mods[m].0,
                seq_lookup(mods[m].1, r[j].0).unwrap(),
            ));
        }
        assert(mi_mods =~= mj_mods);
        assert(r[i].1 == spec_server_config_from(
            pi,
            PeerId(r[i].0),
            spec_dealer_bpks(r),
            r[i].1.private.broadcast_secret_key,
            spec_mods_for_peer(mods, r[i].0),
            code_version,
            timing,
        ));
        assert(r[j].1 == spec_server_config_from(
            pj,
            PeerId(r[j].0),
            spec_dealer_bpks(r),
            r[j].1.private.broadcast_secret_key,
            spec_mods_for_peer(mods, r[j].0),
            code_version,
            timing,
        ));
    }
}

} // verus!
