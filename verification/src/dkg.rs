//! The distributed configuration generation protocol, as an explicit state
//! machine.
//!
//! The machine decides; a driver performs the outside work. Each call of
//! [`DkgSession::step`] consumes one event (a connectivity report, a received
//! checksum, the exchanged key table, one module's generation result) and
//! returns the next action for the driver (wait, broadcast and await a
//! checksum, exchange keys, run one module's generation, or finish). The
//! phases run strictly in order: connectivity wait, pre-generation checksum
//! barrier over the peer table, broadcast key exchange, sequential per-module
//! generation, assembly, post-generation checksum barrier over the assembled
//! consensus section. Any mismatch or transport failure is fatal: the
//! machine enters its failed phase and never completes.

use vstd::prelude::*;

use crate::config::{
    spec_server_config_from, BroadcastSettings, ConfigGenParams, ServerConfig,
};
use crate::crypto::{
    broadcast_public_key_of, generate_broadcast_keypair, valid_broadcast_secret_key,
};
use crate::dealer::{dealer_output_ok, spec_dealer_module_cfgs, spec_keys};
use crate::hashing::{consensus_hash, peer_table_hash, spec_consensus_hash, spec_peer_table_hash};
use crate::registry::ModuleInitRegistry;
use crate::sorted_map::{seq_lookup, SortedMap};
use crate::types::{bytes_eq, clone_bytes, clone_bytes_map, ModuleInstanceId, ServerModuleConfig};
use crate::PeerId;

verus! {

/// Why a generation attempt was aborted.
#[derive(Debug)]
pub enum DkgError {
    /// A peer announced a checksum different from ours: the inputs or the
    /// generated consensus state diverged.
    PeerChecksumMismatch(PeerId),
    /// The transport shut down, or delivered something no phase expects.
    UnexpectedShutdown,
    /// One module's distributed generation failed.
    ModuleGenFailed(ModuleInstanceId, String),
    /// The key exchange returned a malformed table.
    MalformedKeyExchange,
}

/// What the driver must do next.
pub enum DkgAction {
    /// Poll the transport until every peer's connection is open, then report
    /// the status as a connectivity event.
    WaitForConnectivity,
    /// Send the checksum to every peer, then receive a checksum from the
    /// named peer and report it.
    BroadcastChecksumAndAwait(Vec<u8>, PeerId),
    /// Receive a checksum from the named peer and report it.
    AwaitChecksum(PeerId),
    /// Exchange our broadcast public key with every peer and report the
    /// collected table.
    ExchangeBroadcastKeys(Vec<u8>),
    /// Run the named module's distributed generation and report its result.
    RunModuleGen(ModuleInstanceId, String, Vec<u8>),
    /// Generation completed with this configuration.
    Complete(ServerConfig),
    /// Generation failed; the attempt must be restarted from scratch.
    Fail(DkgError),
}

/// What the driver reports back.
pub enum DkgEvent {
    /// Whether every configured peer's connection is open.
    Connectivity(bool),
    /// A checksum received from a peer.
    ChecksumFrom(PeerId, Vec<u8>),
    /// The broadcast public key of every peer, keyed by peer id, as the
    /// exchange primitive collected them.
    KeysExchanged(SortedMap<Vec<u8>>),
    /// One module's distributed generation succeeded.
    ModuleGenerated(ServerModuleConfig),
    /// One module's distributed generation failed.
    ModuleFailed(String),
    /// The transport shut down unexpectedly.
    TransportClosed,
}

/// The phases of one generation attempt, in the order they are passed.
#[derive(Clone, Copy, Debug, PartialEq, Eq, Structural)]
pub enum DkgPhase {
    AwaitingConnectivity,
    PreBarrier { next: usize },
    AwaitingKeys,
    ModuleGen { next: usize },
    PostBarrier { next: usize },
    Done,
    Failed,
}

/// One step of the checksum consistency barrier: hold what one peer sent
/// against the expected digest. Any mismatch is fatal; otherwise the barrier
/// awaits the next peer or completes.
pub enum BarrierStep {
    Mismatch,
    Await(PeerId),
    Complete,
}

pub fn barrier_advance(
    others: &Vec<PeerId>,
    next: usize,
    expected: &Vec<u8>,
    from: PeerId,
    got: &Vec<u8>,
) -> (r: BarrierStep)
    requires
        next < others@.len(),
    ensures
        r is Mismatch <==> (from != others@[next as int] || got@ != expected@),
        r matches BarrierStep::Await(p) ==> from == others@[next as int] && got@ == expected@
            && next + 1 < others@.len() && p == others@[next as int + 1],
        r is Complete <==> (from == others@[next as int] && got@ == expected@ && next + 1
            == others@.len()),
{
    let n = others.len();
    if from != others[next] {
        return BarrierStep::Mismatch;
    }
    if !bytes_eq(got, expected) {
        return BarrierStep::Mismatch;
    }
    if n - next > 1 {
        BarrierStep::Await(others[next + 1])
    } else {
        BarrierStep::Complete
    }
}

/// The ids of `s` that are not `our`, in stored order.
pub open spec fn spec_others(s: Seq<u16>, our: u16) -> Seq<u16>
    decreases s.len(),
{
    if s.len() == 0 {
        Seq::empty()
    } else if s[0] == our {
        spec_others(s.drop_first(), our)
    } else {
        seq![s[0]] + spec_others(s.drop_first(), our)
    }
}

pub proof fn lemma_others_push(s: Seq<u16>, x: u16, our: u16)
    ensures
        spec_others(s.push(x), our) == if x == our {
            spec_others(s, our)
        } else {
            spec_others(s, our).push(x)
        },
    decreases s.len(),
{
    if s.len() == 0 {
        assert(s.push(x)[0] == x);
        assert(s.push(x).drop_first() =~= Seq::<u16>::empty());
        assert(spec_others(Seq::<u16>::empty(), our) == Seq::<u16>::empty());
        assert(spec_others(s, our) == Seq::<u16>::empty());
        if x == our {
            assert(spec_others(s.push(x), our) =~= spec_others(s, our));
        } else {
            assert(spec_others(s.push(x), our) == seq![x] + Seq::<u16>::empty());
            assert(spec_others(s.push(x), our) =~= spec_others(s, our).push(x));
        }
    } else {
        assert(s.push(x)[0] == s[0]);
        assert(s.push(x).drop_first() =~= s.drop_first().push(x));
        lemma_others_push(s.drop_first(), x, our);
        if x == our {
            assert(spec_others(s.push(x), our) =~= spec_others(s, our));
        } else {
            assert(spec_others(s.push(x), our) =~= spec_others(s, our).push(x));
        }
    }
}

/// On ids that never hold `our`, nothing is filtered out.
proof fn lemma_others_all_diff(s: Seq<u16>, our: u16)
    requires
        forall|i: int| 0 <= i < s.len() ==> (#[trigger] s[i]) != our,
    ensures
        spec_others(s, our) == s,
    decreases s.len(),
{
    if s.len() == 0 {
        assert(spec_others(s, our) =~= s);
    } else {
        assert(forall|i: int|
            0 <= i < s.drop_first().len() ==> (#[trigger] s.drop_first()[i]) != our);
        lemma_others_all_diff(s.drop_first(), our);
        assert(spec_others(s, our) =~= s);
    }
}

/// A strictly increasing roster holds any id at most once, so filtering one
/// id out removes at most one element.
pub proof fn lemma_others_len(s: Seq<u16>, our: u16)
    requires
        forall|i: int, j: int| 0 <= i < j < s.len() ==> (#[trigger] s[i]) < (#[trigger] s[j]),
    ensures
        spec_others(s, our).len() >= s.len() - 1,
    decreases s.len(),
{
    if s.len() == 0 {
    } else if s[0] == our {
        assert forall|i: int|
            0 <= i < s.drop_first().len() implies (#[trigger] s.drop_first()[i]) != our by {
            assert(s.drop_first()[i] == s[i + 1]);
            assert(s[0] < s[i + 1]);
        }
        lemma_others_all_diff(s.drop_first(), our);
    } else {
        assert(forall|i: int, j: int|
            0 <= i < j < s.drop_first().len() ==> (#[trigger] s.drop_first()[i]) < (
            #[trigger] s.drop_first()[j]));
        lemma_others_len(s.drop_first(), our);
    }
}

/// Which events each phase can consume; anything else is a driver fault
/// and fails the machine.
pub open spec fn spec_event_expected(phase: DkgPhase, event: DkgEvent) -> bool {
    match (phase, event) {
        (DkgPhase::AwaitingConnectivity, DkgEvent::Connectivity(_)) => true,
        (DkgPhase::PreBarrier { .. }, DkgEvent::ChecksumFrom(_, _)) => true,
        (DkgPhase::AwaitingKeys, DkgEvent::KeysExchanged(_)) => true,
        (DkgPhase::ModuleGen { .. }, DkgEvent::ModuleGenerated(_)) => true,
        (DkgPhase::ModuleGen { .. }, DkgEvent::ModuleFailed(_)) => true,
        (DkgPhase::PostBarrier { .. }, DkgEvent::ChecksumFrom(_, _)) => true,
        _ => false,
    }
}

/// One peer's run of the distributed generation protocol.
pub struct DkgSession {
    /// The operator-supplied generation parameters.
    pub params: ConfigGenParams,
    /// The version of the binary code running.
    pub code_version: String,
    /// Broadcast round timing for the produced configuration.
    pub timing: BroadcastSettings,
    /// Our freshly sampled broadcast secret key.
    pub our_sk: Vec<u8>,
    /// The public key derived from it, offered in the exchange.
    pub our_pk: Vec<u8>,
    /// All peers but ourselves, in id order.
    pub others: Vec<PeerId>,
    /// The digest of the consensus peer table.
    pub pre_checksum: Vec<u8>,
    /// The exchanged broadcast key table, once the exchange completed.
    pub broadcast_keys: Option<SortedMap<Vec<u8>>>,
    /// The module configurations collected so far, in declaration order.
    pub module_cfgs: SortedMap<ServerModuleConfig>,
    /// The assembled configuration, between assembly and completion.
    pub assembled: Option<ServerConfig>,
    /// The digest of the assembled consensus section.
    pub post_checksum: Vec<u8>,
    /// Where the protocol stands.
    pub phase: DkgPhase,
}

impl DkgSession {
    pub open spec fn roster(self) -> Seq<u16> {
        spec_keys(self.params.consensus.peers.dseq())
    }

    pub open spec fn our_id(self) -> u16 {
        self.params.local.our_id.0
    }

    pub open spec fn wf(self) -> bool {
        &&& self.params.wf()
        &&& self.our_pk@ == broadcast_public_key_of(self.our_sk@)
        &&& valid_broadcast_secret_key(self.our_sk@)
        &&& self.others@.map_values(|p: PeerId| p.0) == spec_others(self.roster(), self.our_id())
        &&& self.pre_checksum@ == spec_peer_table_hash(self.params.consensus.peers.dseq())
        &&& self.module_cfgs.wf()
        &&& match self.phase {
            DkgPhase::AwaitingConnectivity => self.others@.len() >= 1
                && self.module_cfgs.spec_len() == 0 && self.broadcast_keys is None
                && self.assembled is None,
            DkgPhase::PreBarrier { next } => next < self.others@.len()
                && self.module_cfgs.spec_len() == 0 && self.broadcast_keys is None
                && self.assembled is None,
            DkgPhase::AwaitingKeys => self.others@.len() >= 1 && self.module_cfgs.spec_len() == 0
                && self.broadcast_keys is None && self.assembled is None,
            DkgPhase::ModuleGen { next } => {
                &&& self.others@.len() >= 1
                &&& next < self.params.consensus.modules.spec_len()
                &&& self.broadcast_keys matches Some(bk) && bk.wf()
                &&& self.assembled is None
                &&& self.module_cfgs.spec_len() == next
                &&& forall|j: int|
                    0 <= j < next as int ==> (#[trigger] self.module_cfgs.entries_seq()[j]).0
                        == self.params.consensus.modules.entries_seq()[j].0
            },
            DkgPhase::PostBarrier { next } => {
                &&& next < self.others@.len()
                &&& self.broadcast_keys matches Some(bk) && bk.wf()
                &&& self.assembled matches Some(c) && c.wf() && c.deep_view()
                    == spec_server_config_from(
                    self.params.deep_view(),
                    self.params.local.our_id,
                    self.broadcast_keys.unwrap().dseq(),
                    self.our_sk@,
                    self.module_cfgs.dseq(),
                    self.code_version@,
                    self.timing,
                ) && self.post_checksum@ == spec_consensus_hash(c.deep_view().consensus)
            },
            DkgPhase::Done => true,
            DkgPhase::Failed => true,
        }
    }

    /// Begin one generation attempt. A single-peer federation is generated
    /// at once, on the trusted-dealer path, with no network action; any
    /// larger federation starts by waiting for connectivity.
    pub fn start<R: ModuleInitRegistry>(
        params: ConfigGenParams,
        registry: &R,
        code_version: String,
        timing: BroadcastSettings,
    ) -> (r: (DkgSession, DkgAction))
        requires
            params.wf(),
            spec_keys(params.consensus.peers.dseq()).len() >= 1,
            // the degenerate single-peer federation is peer 0 alone, and its
            // declared modules must all be registered, as on the dealer path
            spec_keys(params.consensus.peers.dseq()).len() == 1 ==> params.local.our_id.0 == 0
                && spec_keys(params.consensus.peers.dseq())[0] == 0 && (forall|j: int|
                0 <= j < params.consensus.modules.dseq().len() ==> registry.registered(
                    (#[trigger] params.consensus.modules.dseq()[j]).1.kind,
                )),
        ensures
            r.0.wf(),
            r.0.params == params,
            r.0.code_version == code_version,
            r.0.timing == timing,
            spec_keys(params.consensus.peers.dseq()).len() > 1 ==> r.0.phase
                is AwaitingConnectivity && r.1 is WaitForConnectivity,
            spec_keys(params.consensus.peers.dseq()).len() == 1 ==> r.0.phase is Done && (
            r.1 matches DkgAction::Complete(c) && dealer_output_ok(
                seq![(0u16, params.deep_view())],
                spec_dealer_module_cfgs(registry, params.deep_view()),
                code_version@,
                timing,
                seq![(0u16, c.deep_view())],
            )),
    {
        let (our_sk, our_pk) = generate_broadcast_keypair();
        let pre_checksum = peer_table_hash(&params.consensus.peers);

        // all peers but ourselves, in id order
        let ghost roster = spec_keys(params.consensus.peers.dseq());
        let our_id = params.local.our_id;
        let entries = params.consensus.peers.entries();
        let mut others: Vec<PeerId> = Vec::new();
        let mut i: usize = 0;
        while i < entries.len()
            invariant
                entries@ == params.consensus.peers.entries_seq(),
                roster == spec_keys(params.consensus.peers.dseq()),
                0 <= i <= entries@.len(),
                others@.map_values(|p: PeerId| p.0) =~= spec_others(
                    roster.subrange(0, i as int),
                    our_id.0,
                ),
            decreases entries@.len() - i,
        {
            let k = entries[i].0;
            proof {
                assert(roster[i as int] == k);
                assert(roster.subrange(0, i + 1) =~= roster.subrange(0, i as int).push(k));
                lemma_others_push(roster.subrange(0, i as int), k, our_id.0);
            }
            if k != our_id.0 {
                others.push(PeerId(k));
                proof {
                    assert(others@.map_values(|p: PeerId| p.0) =~= spec_others(
                        roster.subrange(0, i + 1),
                        our_id.0,
                    ));
                }
            }
            i += 1;
        }
        proof {
            assert(roster.subrange(0, roster.len() as int) =~= roster);
        }

        let n = params.consensus.peers.len();
        if n == 1 {
            // degenerate single-peer federation: no network partner exists,
            // so generate on the trusted-dealer path at once
            let mut single: SortedMap<ConfigGenParams> = SortedMap::new();
            single.push_back(0, params.duplicate());
            proof {
                assert(single.dseq() =~= seq![(0u16, params.deep_view())]);
                crate::sorted_map::lemma_seq_lookup_entries(single.dseq(), 0);
                assert(single.dseq()[0].0 == 0);
                assert(seq_lookup(single.dseq(), 0) == Some(params.deep_view()));
                assert(single.dseq()[0].1.consensus.peers == params.consensus.peers.dseq());
                assert forall|j: int|
                    0 <= j < seq_lookup(single.dseq(), 0).unwrap().consensus.peers.len()
                        implies seq_lookup(
                    single.dseq(),
                    (#[trigger] seq_lookup(single.dseq(), 0).unwrap().consensus.peers[j]).0,
                ) is Some by {
                    assert(roster[j] == seq_lookup(
                        single.dseq(),
                        0,
                    ).unwrap().consensus.peers[j].0);
                    assert(roster[0] == 0);
                }
            }
            let out = ServerConfig::trusted_dealer_gen(&single, registry, &code_version, timing);
            let ghost outd = out.dseq();
            let mut out_entries = out.into_entries();
            proof {
                assert(spec_keys(outd).len() == outd.len());
                assert(outd.len() == 1);
                assert(out_entries@.len() == 1);
            }
            let first = out_entries.remove(0);
            let cfg = first.1;
            proof {
                assert(outd =~= seq![(0u16, cfg.deep_view())]) by {
                    assert(spec_keys(outd)[0] == outd[0].0);
                    assert(outd[0].0 == 0);
                    assert(outd[0].1 == cfg.deep_view());
                }
            }
            let session = DkgSession {
                params,
                code_version,
                timing,
                our_sk,
                our_pk,
                others,
                pre_checksum,
                broadcast_keys: None,
                module_cfgs: SortedMap::new(),
                assembled: None,
                post_checksum: Vec::new(),
                phase: DkgPhase::Done,
            };
            return (session, DkgAction::Complete(cfg));
        }

        proof {
            assert forall|a: int, b: int|
                0 <= a < b < roster.len() implies (#[trigger] roster[a]) < (
            #[trigger] roster[b]) by {
                assert(roster[a] == params.consensus.peers.entries_seq()[a].0);
                assert(roster[b] == params.consensus.peers.entries_seq()[b].0);
            }
            lemma_others_len(roster, our_id.0);
        }
        let session = DkgSession {
            params,
            code_version,
            timing,
            our_sk,
            our_pk,
            others,
            pre_checksum,
            broadcast_keys: None,
            module_cfgs: SortedMap::new(),
            assembled: None,
            post_checksum: Vec::new(),
            phase: DkgPhase::AwaitingConnectivity,
        };
        (session, DkgAction::WaitForConnectivity)
    }

    /// Assemble the candidate configuration from the exchanged keys, our own
    /// secret key and the collected module configurations, and open the
    /// final checksum barrier over its consensus section.
    fn assemble_and_barrier(&mut self) -> (action: DkgAction)
        requires
            old(self).params.wf(),
            old(self).module_cfgs.wf(),
            old(self).broadcast_keys matches Some(bk) && bk.wf(),
            old(self).others@.len() >= 1,
        ensures
            final(self).params == old(self).params,
            final(self).code_version == old(self).code_version,
            final(self).timing == old(self).timing,
            final(self).our_sk == old(self).our_sk,
            final(self).our_pk == old(self).our_pk,
            final(self).others == old(self).others,
            final(self).pre_checksum == old(self).pre_checksum,
            final(self).broadcast_keys == old(self).broadcast_keys,
            final(self).module_cfgs == old(self).module_cfgs,
            final(self).phase == (DkgPhase::PostBarrier { next: 0 }),
            final(self).assembled matches Some(c) && c.wf() && c.deep_view()
                == spec_server_config_from(
                old(self).params.deep_view(),
                old(self).params.local.our_id,
                old(self).broadcast_keys.unwrap().dseq(),
                old(self).our_sk@,
                old(self).module_cfgs.dseq(),
                old(self).code_version@,
                old(self).timing,
            ),
            final(self).post_checksum@ == spec_consensus_hash(
                final(self).assembled.unwrap().deep_view().consensus,
            ),
            action matches DkgAction::BroadcastChecksumAndAwait(h, p) && h@ == final(self).post_checksum@ && p == old(self).others@[0],
    {
        let bk = match &self.broadcast_keys {
            Some(bk) => clone_bytes_map(bk),
            None => vstd::pervasive::unreached(),
        };
        let cfg = ServerConfig::from(
            &self.params,
            self.params.local.our_id,
            bk,
            clone_bytes(&self.our_sk),
            &self.module_cfgs,
            self.code_version.clone(),
            self.timing,
        );
        let h = consensus_hash(&cfg.consensus);
        self.post_checksum = h;
        self.assembled = Some(cfg);
        self.phase = DkgPhase::PostBarrier { next: 0 };
        DkgAction::BroadcastChecksumAndAwait(clone_bytes(&self.post_checksum), self.others[0])
    }

    /// Consume one event and decide the next action.
    ///
    /// Any checksum mismatch at either barrier, any transport failure and
    /// any module generation failure moves the machine to its failed phase;
    /// a failed or finished machine never acts again, and a configuration is
    /// handed out only by the completion of the final barrier.
    #[verifier::rlimit(100)]
    pub fn step(&mut self, event: DkgEvent) -> (action: DkgAction)
        requires
            old(self).wf(),
        ensures
            final(self).wf(),
            final(self).params == old(self).params,
            final(self).code_version == old(self).code_version,
            final(self).timing == old(self).timing,
            final(self).our_sk == old(self).our_sk,
            final(self).our_pk == old(self).our_pk,
            final(self).others == old(self).others,
            final(self).pre_checksum == old(self).pre_checksum,
            // a machine that failed or finished never acts again
            old(self).phase is Failed || old(self).phase is Done ==> final(self).phase == old(self).phase && action matches DkgAction::Fail(DkgError::UnexpectedShutdown),
            // a configuration is handed out only when the final barrier
            // completes, and it is exactly the assembled projection
            action matches DkgAction::Complete(c) ==> (old(self).phase matches
                DkgPhase::PostBarrier { next } && final(self).phase is Done && c.wf()
                && c.deep_view() == spec_server_config_from(
                old(self).params.deep_view(),
                old(self).params.local.our_id,
                old(self).broadcast_keys.unwrap().dseq(),
                old(self).our_sk@,
                old(self).module_cfgs.dseq(),
                old(self).code_version@,
                old(self).timing,
            )),
            // before the key exchange no module has been generated
            (old(self).phase is AwaitingConnectivity || old(self).phase matches
                DkgPhase::PreBarrier { .. }) ==> final(self).module_cfgs.spec_len() == 0 && final(self).assembled is None && !(action matches DkgAction::Complete(_)),
            // a transport shutdown, or any event its phase does not expect,
            // is fatal in every active phase
            !spec_event_expected(old(self).phase, event) && !(old(self).phase is Done || old(self).phase is Failed) ==> final(self).phase is Failed && action matches DkgAction::Fail(
                DkgError::UnexpectedShutdown,
            ),
            // connectivity wait: poll until every connection is open
            old(self).phase matches DkgPhase::AwaitingConnectivity ==> event matches
                DkgEvent::Connectivity(ok) ==> (if !ok {
                final(self).phase is AwaitingConnectivity && action is WaitForConnectivity
            } else {
                final(self).phase == (DkgPhase::PreBarrier { next: 0 }) && (action matches
                    DkgAction::BroadcastChecksumAndAwait(h, p) && h@ == old(self).pre_checksum@
                    && p == old(self).others@[0])
            }),
            // first barrier: any wrong checksum aborts the attempt before
            // any cryptographic work is spent
            old(self).phase matches DkgPhase::PreBarrier { next } ==> event matches
                DkgEvent::ChecksumFrom(p, h) ==> (if p != old(self).others@[next as int] || h@
                != old(self).pre_checksum@ {
                final(self).phase is Failed && (action matches DkgAction::Fail(
                    DkgError::PeerChecksumMismatch(q),
                ) && q == p)
            } else if next + 1 < old(self).others@.len() {
                final(self).phase == (DkgPhase::PreBarrier { next: (next + 1) as usize }) && (action matches
                    DkgAction::AwaitChecksum(q) && q == old(self).others@[next as int + 1])
            } else {
                final(self).phase is AwaitingKeys && (action matches
                    DkgAction::ExchangeBroadcastKeys(pk) && pk@ == old(self).our_pk@)
            }),
            // key exchange: store the collected table and start the first
            // module's generation, or assemble at once if no modules exist
            old(self).phase matches DkgPhase::AwaitingKeys ==> event matches
                DkgEvent::KeysExchanged(m) ==> (if !m.wf() {
                final(self).phase is Failed && action matches DkgAction::Fail(
                    DkgError::MalformedKeyExchange,
                )
            } else {
                final(self).broadcast_keys == Some(m) && (
                if old(self).params.consensus.modules.spec_len() > 0 {
                    final(self).phase == (DkgPhase::ModuleGen { next: 0 }) && (action matches
                        DkgAction::RunModuleGen(id, kind, ps) && id == old(self).params.consensus.modules.dseq()[0].0 && kind@ == old(self).params.consensus.modules.dseq()[0].1.kind && ps@ == old(self).params.consensus.modules.dseq()[0].1.params)
                } else {
                    final(self).phase == (DkgPhase::PostBarrier { next: 0 }) && (action matches
                        DkgAction::BroadcastChecksumAndAwait(h, p) && h@ == final(self).post_checksum@ && p == old(self).others@[0])
                })
            }),
            // module generation, strictly in declaration order
            old(self).phase matches DkgPhase::ModuleGen { next } ==> event matches
                DkgEvent::ModuleGenerated(cfg) ==> final(self).module_cfgs.dseq() == old(self).module_cfgs.dseq() + seq![
                (old(self).params.consensus.modules.dseq()[next as int].0, cfg.deep_view()),
            ] && (if next + 1 < old(self).params.consensus.modules.spec_len() {
                final(self).phase == (DkgPhase::ModuleGen { next: (next + 1) as usize }) && (action matches
                    DkgAction::RunModuleGen(id, kind, ps) && id == old(self).params.consensus.modules.dseq()[next as int + 1].0 && kind@ == old(self).params.consensus.modules.dseq()[next as int + 1].1.kind && ps@ == old(self).params.consensus.modules.dseq()[next as int + 1].1.params)
            } else {
                final(self).phase == (DkgPhase::PostBarrier { next: 0 }) && (action matches
                    DkgAction::BroadcastChecksumAndAwait(h, p) && h@ == final(self).post_checksum@ && p == old(self).others@[0])
            }),
            // a module's failure aborts the whole attempt
            old(self).phase matches DkgPhase::ModuleGen { next } ==> event matches
                DkgEvent::ModuleFailed(e) ==> final(self).phase is Failed && (action matches
                DkgAction::Fail(DkgError::ModuleGenFailed(id, msg)) && id == old(self).params.consensus.modules.dseq()[next as int].0 && msg == e),
            // final barrier: any wrong checksum aborts; completion hands the
            // assembled configuration out
            old(self).phase matches DkgPhase::PostBarrier { next } ==> event matches
                DkgEvent::ChecksumFrom(p, h) ==> (if p != old(self).others@[next as int] || h@
                != old(self).post_checksum@ {
                final(self).phase is Failed && (action matches DkgAction::Fail(
                    DkgError::PeerChecksumMismatch(q),
                ) && q == p)
            } else if next + 1 < old(self).others@.len() {
                final(self).phase == (DkgPhase::PostBarrier { next: (next + 1) as usize }) && (action matches
                    DkgAction::AwaitChecksum(q) && q == old(self).others@[next as int + 1])
            } else {
                final(self).phase is Done && action matches DkgAction::Complete(_)
            }),
    {
        let phase = self.phase;
        match (phase, event) {
            (DkgPhase::Failed, _) => DkgAction::Fail(DkgError::UnexpectedShutdown),
            (DkgPhase::Done, _) => DkgAction::Fail(DkgError::UnexpectedShutdown),
            (DkgPhase::AwaitingConnectivity, DkgEvent::Connectivity(ok)) => {
                if ok {
                    self.phase = DkgPhase::PreBarrier { next: 0 };
                    DkgAction::BroadcastChecksumAndAwait(
                        clone_bytes(&self.pre_checksum),
                        self.others[0],
                    )
                } else {
                    DkgAction::WaitForConnectivity
                }
            },
            (DkgPhase::PreBarrier { next }, DkgEvent::ChecksumFrom(p, h)) => {
                self.on_pre_checksum(next, p, h)
            },
            (DkgPhase::AwaitingKeys, DkgEvent::KeysExchanged(m)) => self.on_keys(m),
            (DkgPhase::ModuleGen { next }, DkgEvent::ModuleGenerated(cfg)) => {
                self.on_module_generated(next, cfg)
            },
            (DkgPhase::ModuleGen { next }, DkgEvent::ModuleFailed(e)) => {
                let mentries = self.params.consensus.modules.entries();
                let id = mentries[next].0;
                self.phase = DkgPhase::Failed;
                DkgAction::Fail(DkgError::ModuleGenFailed(id, e))
            },
            (DkgPhase::PostBarrier { next }, DkgEvent::ChecksumFrom(p, h)) => {
                self.on_post_checksum(next, p, h)
            },
            (_, _) => {
                self.phase = DkgPhase::Failed;
                DkgAction::Fail(DkgError::UnexpectedShutdown)
            },
        }
    }

    #[verifier::rlimit(100)]
    fn on_pre_checksum(&mut self, next: usize, p: PeerId, h: Vec<u8>) -> (action: DkgAction)
        requires
            old(self).wf(),
            old(self).phase == (DkgPhase::PreBarrier { next }),
        ensures
            final(self).wf(),
            final(self).params == old(self).params,
            final(self).code_version == old(self).code_version,
            final(self).timing == old(self).timing,
            final(self).our_sk == old(self).our_sk,
            final(self).our_pk == old(self).our_pk,
            final(self).others == old(self).others,
            final(self).pre_checksum == old(self).pre_checksum,
            final(self).module_cfgs.spec_len() == 0,
            final(self).assembled is None,
            !(action matches DkgAction::Complete(_)),
            (if p != old(self).others@[next as int] || h@ != old(self).pre_checksum@ {
                final(self).phase is Failed && (action matches DkgAction::Fail(
                    DkgError::PeerChecksumMismatch(q),
                ) && q == p)
            } else if next + 1 < old(self).others@.len() {
                final(self).phase == (DkgPhase::PreBarrier { next: (next + 1) as usize }) && (
                action matches DkgAction::AwaitChecksum(q) && q == old(self).others@[next as int
                    + 1])
            } else {
                final(self).phase is AwaitingKeys && (action matches
                    DkgAction::ExchangeBroadcastKeys(pk) && pk@ == old(self).our_pk@)
            }),
    {
        let n = self.others.len();
        match barrier_advance(&self.others, next, &self.pre_checksum, p, &h) {
            BarrierStep::Mismatch => {
                self.phase = DkgPhase::Failed;
                DkgAction::Fail(DkgError::PeerChecksumMismatch(p))
            },
            BarrierStep::Await(q) => {
                self.phase = DkgPhase::PreBarrier { next: next + 1 };
                DkgAction::AwaitChecksum(q)
            },
            BarrierStep::Complete => {
                self.phase = DkgPhase::AwaitingKeys;
                DkgAction::ExchangeBroadcastKeys(clone_bytes(&self.our_pk))
            },
        }
    }

    fn on_keys(&mut self, m: SortedMap<Vec<u8>>) -> (action: DkgAction)
        requires
            old(self).wf(),
            old(self).phase == DkgPhase::AwaitingKeys,
        ensures
            final(self).wf(),
            final(self).params == old(self).params,
            final(self).code_version == old(self).code_version,
            final(self).timing == old(self).timing,
            final(self).our_sk == old(self).our_sk,
            final(self).our_pk == old(self).our_pk,
            final(self).others == old(self).others,
            final(self).pre_checksum == old(self).pre_checksum,
            !(action matches DkgAction::Complete(_)),
            (if !m.wf() {
                final(self).phase is Failed && (action matches DkgAction::Fail(
                    DkgError::MalformedKeyExchange,
                )) && final(self).module_cfgs.spec_len() == 0 && final(self).assembled is None
            } else {
                final(self).broadcast_keys == Some(m) && (
                if old(self).params.consensus.modules.spec_len() > 0 {
                    final(self).phase == (DkgPhase::ModuleGen { next: 0 }) && (action matches
                        DkgAction::RunModuleGen(id, kind, ps) && id == old(self).params.consensus.modules.dseq()[0].0 && kind@ == old(self).params.consensus.modules.dseq()[0].1.kind && ps@ == old(self).params.consensus.modules.dseq()[0].1.params) && final(self).module_cfgs.spec_len() == 0 && final(self).assembled is None
                } else {
                    final(self).phase == (DkgPhase::PostBarrier { next: 0 }) && (action matches
                        DkgAction::BroadcastChecksumAndAwait(h, q) && h@ == final(self).post_checksum@ && q == old(self).others@[0])
                })
            }),
    {
        if !m.is_sorted() {
            self.phase = DkgPhase::Failed;
            DkgAction::Fail(DkgError::MalformedKeyExchange)
        } else {
            self.broadcast_keys = Some(m);
            let mentries = self.params.consensus.modules.entries();
            if mentries.len() > 0 {
                let id = mentries[0].0;
                let kind = mentries[0].1.kind.clone();
                let ps = clone_bytes(&mentries[0].1.params);
                self.phase = DkgPhase::ModuleGen { next: 0 };
                DkgAction::RunModuleGen(id, kind, ps)
            } else {
                self.assemble_and_barrier()
            }
        }
    }

    fn on_module_generated(&mut self, next: usize, cfg: ServerModuleConfig) -> (action: DkgAction)
        requires
            old(self).wf(),
            old(self).phase == (DkgPhase::ModuleGen { next }),
        ensures
            final(self).wf(),
            final(self).params == old(self).params,
            final(self).code_version == old(self).code_version,
            final(self).timing == old(self).timing,
            final(self).our_sk == old(self).our_sk,
            final(self).our_pk == old(self).our_pk,
            final(self).others == old(self).others,
            final(self).pre_checksum == old(self).pre_checksum,
            !(action matches DkgAction::Complete(_)),
            final(self).module_cfgs.dseq() == old(self).module_cfgs.dseq() + seq![
                (old(self).params.consensus.modules.dseq()[next as int].0, cfg.deep_view()),
            ],
            (if next + 1 < old(self).params.consensus.modules.spec_len() {
                final(self).phase == (DkgPhase::ModuleGen { next: (next + 1) as usize }) && (
                action matches DkgAction::RunModuleGen(id, kind, ps) && id == old(self).params.consensus.modules.dseq()[next as int + 1].0 && kind@ == old(self).params.consensus.modules.dseq()[next as int + 1].1.kind && ps@ == old(self).params.consensus.modules.dseq()[next as int + 1].1.params)
            } else {
                final(self).phase == (DkgPhase::PostBarrier { next: 0 }) && (action matches
                    DkgAction::BroadcastChecksumAndAwait(h, q) && h@ == final(self).post_checksum@ && q == old(self).others@[0])
            }),
    {
        let mentries = self.params.consensus.modules.entries();
        let id = mentries[next].0;
        proof {
            assert forall|j: int|
                0 <= j < self.module_cfgs.spec_len() implies (
            #[trigger] self.module_cfgs.entries_seq()[j]).0 < id by {
                assert(self.module_cfgs.entries_seq()[j].0
                    == self.params.consensus.modules.entries_seq()[j].0);
                assert(self.params.consensus.modules.entries_seq()[j].0
                    < self.params.consensus.modules.entries_seq()[next as int].0);
            }
        }
        self.module_cfgs.push_back(id, cfg);
        let n = self.params.consensus.modules.len();
        if n - next > 1 {
            let mentries2 = self.params.consensus.modules.entries();
            let id2 = mentries2[next + 1].0;
            let kind2 = mentries2[next + 1].1.kind.clone();
            let ps2 = clone_bytes(&mentries2[next + 1].1.params);
            self.phase = DkgPhase::ModuleGen { next: next + 1 };
            DkgAction::RunModuleGen(id2, kind2, ps2)
        } else {
            self.assemble_and_barrier()
        }
    }

    #[verifier::rlimit(100)]
    fn on_post_checksum(&mut self, next: usize, p: PeerId, h: Vec<u8>) -> (action: DkgAction)
        requires
            old(self).wf(),
            old(self).phase == (DkgPhase::PostBarrier { next }),
        ensures
            final(self).wf(),
            final(self).params == old(self).params,
            final(self).code_version == old(self).code_version,
            final(self).timing == old(self).timing,
            final(self).our_sk == old(self).our_sk,
            final(self).our_pk == old(self).our_pk,
            final(self).others == old(self).others,
            final(self).pre_checksum == old(self).pre_checksum,
            action matches DkgAction::Complete(c) ==> (final(self).phase is Done && c.wf()
                && c.deep_view() == spec_server_config_from(
                old(self).params.deep_view(),
                old(self).params.local.our_id,
                old(self).broadcast_keys.unwrap().dseq(),
                old(self).our_sk@,
                old(self).module_cfgs.dseq(),
                old(self).code_version@,
                old(self).timing,
            )),
            (if p != old(self).others@[next as int] || h@ != old(self).post_checksum@ {
                final(self).phase is Failed && (action matches DkgAction::Fail(
                    DkgError::PeerChecksumMismatch(q),
                ) && q == p)
            } else if next + 1 < old(self).others@.len() {
                final(self).phase == (DkgPhase::PostBarrier { next: (next + 1) as usize }) && (
                action matches DkgAction::AwaitChecksum(q) && q == old(self).others@[next as int
                    + 1])
            } else {
                final(self).phase is Done && action matches DkgAction::Complete(_)
            }),
    {
        let n = self.others.len();
        match barrier_advance(&self.others, next, &self.post_checksum, p, &h) {
            BarrierStep::Mismatch => {
                self.phase = DkgPhase::Failed;
                DkgAction::Fail(DkgError::PeerChecksumMismatch(p))
            },
            BarrierStep::Await(q) => {
                self.phase = DkgPhase::PostBarrier { next: next + 1 };
                DkgAction::AwaitChecksum(q)
            },
            BarrierStep::Complete => {
                let cfg = match self.assembled.take() {
                    Some(c) => c,
                    None => vstd::pervasive::unreached(),
                };
                self.phase = DkgPhase::Done;
                DkgAction::Complete(cfg)
            },
        }
    }
}

} // verus!
