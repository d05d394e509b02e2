//! The module registry: the pluggable per-module generation and validation
//! procedures, keyed by module kind.
//!
//! Concrete modules implement [`ModuleInitRegistry`]; the generation paths
//! and the validator are verified against its contract. A registry's
//! trusted-dealer generation is deterministic in its inputs, which the trait
//! captures with a specification-level companion of the method.

use vstd::prelude::*;

use crate::sorted_map::SortedMap;
use crate::types::{
    ModuleInstanceId, ModuleRawConfig, ServerModuleConfig, ServerModuleConfigV,
    ServerModuleConsensusConfig, ServerModuleConsensusConfigV,
};
use crate::PeerId;

verus! {

/// A module's client-visible configuration.
pub struct ClientModuleConfig {
    pub kind: String,
    pub config: Vec<u8>,
}

pub struct ClientModuleConfigV {
    pub kind: Seq<char>,
    pub config: Seq<u8>,
}

impl DeepView for ClientModuleConfig {
    type V = ClientModuleConfigV;

    open spec fn deep_view(&self) -> ClientModuleConfigV {
        ClientModuleConfigV { kind: self.kind@, config: self.config@ }
    }
}

/// Versions of a module's API.
#[derive(Clone, Copy, Debug, PartialEq, Eq, Structural)]
pub struct SupportedModuleApiVersions {
    pub core_consensus_major: u32,
    pub core_consensus_minor: u32,
    pub module_consensus_major: u32,
    pub module_consensus_minor: u32,
}

impl DeepView for SupportedModuleApiVersions {
    type V = SupportedModuleApiVersions;

    open spec fn deep_view(&self) -> SupportedModuleApiVersions {
        *self
    }
}

/// The registry of module generation procedures, keyed by module kind.
///
/// Each method is total over kinds: it returns `None` exactly where no
/// module of that kind is registered. A registered module's trusted-dealer
/// generation returns one configuration per requested peer, identical in its
/// consensus part across peers, and deterministic in its inputs.
pub trait ModuleInitRegistry: Sized {
    /// Which module kinds have a registered implementation.
    spec fn registered(&self, kind: Seq<char>) -> bool;

    /// What trusted-dealer generation returns for a registered kind: one
    /// record per requested peer, in the order the peers were given.
    spec fn spec_trusted_dealer_gen(
        &self,
        kind: Seq<char>,
        peer_ids: Seq<u16>,
        params: Seq<u8>,
    ) -> Seq<(u16, ServerModuleConfigV)>;

    fn has_kind(&self, kind: &String) -> (r: bool)
        ensures
            r == self.registered(kind@),
    ;

    /// One module's single-party generation of every peer's configuration.
    fn trusted_dealer_gen(
        &self,
        kind: &String,
        peer_ids: &Vec<PeerId>,
        params: &Vec<u8>,
    ) -> (r: Option<SortedMap<ServerModuleConfig>>)
        requires
            forall|i: int, j: int|
                0 <= i < j < peer_ids@.len() ==> (#[trigger] peer_ids@[i]).0 < (
                #[trigger] peer_ids@[j]).0,
        ensures
            r is Some <==> self.registered(kind@),
            match r {
                Some(m) => {
                    &&& m.wf()
                    &&& m.dseq() == self.spec_trusted_dealer_gen(
                        kind@,
                        peer_ids@.map_values(|p: PeerId| p.0),
                        params@,
                    )
                    &&& m.dseq().map_values(|e: (u16, ServerModuleConfigV)| e.0)
                        == peer_ids@.map_values(|p: PeerId| p.0)
                    &&& forall|i: int, j: int|
                        0 <= i < m.dseq().len() && 0 <= j < m.dseq().len() ==> (
                        #[trigger] m.dseq()[i]).1.consensus == (#[trigger] m.dseq()[j]).1.consensus
                },
                None => true,
            },
    ;

    /// What a registered module's validation decides for one peer's
    /// configuration: acceptance, or its own error message.
    spec fn spec_validate_config(
        &self,
        kind: Seq<char>,
        identity: PeerId,
        cfg: ServerModuleConfigV,
    ) -> Result<(), Seq<char>>;

    /// One module's validation of one peer's configuration; the verdict is
    /// the specified one.
    fn validate_config(
        &self,
        kind: &String,
        identity: PeerId,
        cfg: &ServerModuleConfig,
    ) -> (r: Option<Result<(), String>>)
        ensures
            r is Some <==> self.registered(kind@),
            r matches Some(v) ==> (match v {
                Ok(()) => self.spec_validate_config(kind@, identity, cfg.deep_view()) is Ok,
                Err(e) => self.spec_validate_config(kind@, identity, cfg.deep_view()) matches Err(
                    m,
                ) && m == e@,
            }),
    ;

    /// What a registered module's translation into the client-visible form
    /// returns: the client record, or its own error message.
    spec fn spec_get_client_config(
        &self,
        kind: Seq<char>,
        instance: ModuleInstanceId,
        cfg: ServerModuleConsensusConfigV,
    ) -> Result<ClientModuleConfigV, Seq<char>>;

    /// One module's translation of its consensus configuration into the
    /// client-visible form; the record is the specified one.
    fn get_client_config(
        &self,
        kind: &String,
        instance: ModuleInstanceId,
        cfg: &ServerModuleConsensusConfig,
    ) -> (r: Option<Result<ClientModuleConfig, String>>)
        ensures
            r is Some <==> self.registered(kind@),
            r matches Some(v) ==> (match v {
                Ok(c) => self.spec_get_client_config(kind@, instance, cfg.deep_view()) matches Ok(
                    cv,
                ) && c.deep_view() == cv,
                Err(e) => self.spec_get_client_config(kind@, instance, cfg.deep_view()) matches
                    Err(m) && m == e@,
            }),
    ;

    /// The API versions a registered module supports.
    fn supported_api_versions(&self, kind: &String) -> (r: Option<SupportedModuleApiVersions>)
        ensures
            r is Some <==> self.registered(kind@),
    ;
}

/// A registry with no modules: the degenerate federation that runs the core
/// consensus alone.
pub struct EmptyModuleRegistry;

impl ModuleInitRegistry for EmptyModuleRegistry {
    open spec fn registered(&self, kind: Seq<char>) -> bool {
        false
    }

    open spec fn spec_trusted_dealer_gen(
        &self,
        kind: Seq<char>,
        peer_ids: Seq<u16>,
        params: Seq<u8>,
    ) -> Seq<(u16, ServerModuleConfigV)> {
        Seq::empty()
    }

    open spec fn spec_validate_config(
        &self,
        kind: Seq<char>,
        identity: PeerId,
        cfg: ServerModuleConfigV,
    ) -> Result<(), Seq<char>> {
        Err(Seq::empty())
    }

    open spec fn spec_get_client_config(
        &self,
        kind: Seq<char>,
        instance: ModuleInstanceId,
        cfg: ServerModuleConsensusConfigV,
    ) -> Result<ClientModuleConfigV, Seq<char>> {
        Err(Seq::empty())
    }

    fn has_kind(&self, kind: &String) -> (r: bool) {
        false
    }

    fn trusted_dealer_gen(
        &self,
        kind: &String,
        peer_ids: &Vec<PeerId>,
        params: &Vec<u8>,
    ) -> (r: Option<SortedMap<ServerModuleConfig>>) {
        None
    }

    fn validate_config(
        &self,
        kind: &String,
        identity: PeerId,
        cfg: &ServerModuleConfig,
    ) -> (r: Option<Result<(), String>>) {
        None
    }

    fn get_client_config(
        &self,
        kind: &String,
        instance: ModuleInstanceId,
        cfg: &ServerModuleConsensusConfig,
    ) -> (r: Option<Result<ClientModuleConfig, String>>) {
        None
    }

    fn supported_api_versions(&self, kind: &String) -> (r: Option<SupportedModuleApiVersions>) {
        None
    }
}

/// A registry whose modules all follow one simple scheme: the module's
/// consensus configuration is its generation parameters, and its local and
/// private records are empty. It registers a fixed list of kinds, validates
/// any configuration whose kind matches, and shows clients the consensus
/// payload unchanged.
pub struct StaticModuleRegistry {
    pub kinds: Vec<String>,
}

impl StaticModuleRegistry {
    pub open spec fn spec_static_module_config(
        kind: Seq<char>,
        params: Seq<u8>,
    ) -> ServerModuleConfigV {
        ServerModuleConfigV {
            local: crate::types::ModuleRawConfigV { kind: kind, value: Seq::empty() },
            private: crate::types::ModuleRawConfigV { kind: kind, value: Seq::empty() },
            consensus: crate::types::ServerModuleConsensusConfigV { kind: kind, config: params },
        }
    }

    fn static_module_config(kind: &String, params: &Vec<u8>) -> (r: ServerModuleConfig)
        ensures
            r.deep_view() == Self::spec_static_module_config(kind@, params@),
    {
        ServerModuleConfig {
            local: ModuleRawConfig { kind: kind.clone(), value: Vec::new() },
            private: ModuleRawConfig { kind: kind.clone(), value: Vec::new() },
            consensus: ServerModuleConsensusConfig {
                kind: kind.clone(),
                config: crate::types::clone_bytes(params),
            },
        }
    }
}

impl ModuleInitRegistry for StaticModuleRegistry {
    open spec fn registered(&self, kind: Seq<char>) -> bool {
        exists|i: int| 0 <= i < self.kinds@.len() && (#[trigger] self.kinds@[i])@ == kind
    }

    open spec fn spec_trusted_dealer_gen(
        &self,
        kind: Seq<char>,
        peer_ids: Seq<u16>,
        params: Seq<u8>,
    ) -> Seq<(u16, ServerModuleConfigV)> {
        peer_ids.map_values(|p: u16| (p, Self::spec_static_module_config(kind, params)))
    }

    open spec fn spec_validate_config(
        &self,
        kind: Seq<char>,
        identity: PeerId,
        cfg: ServerModuleConfigV,
    ) -> Result<(), Seq<char>> {
        if cfg.consensus.kind == kind {
            Ok(())
        } else {
            Err("module kind does not match its configuration"@)
        }
    }

    open spec fn spec_get_client_config(
        &self,
        kind: Seq<char>,
        instance: ModuleInstanceId,
        cfg: ServerModuleConsensusConfigV,
    ) -> Result<ClientModuleConfigV, Seq<char>> {
        Ok(ClientModuleConfigV { kind: cfg.kind, config: cfg.config })
    }

    fn has_kind(&self, kind: &String) -> (r: bool) {
        let mut i: usize = 0;
        while i < self.kinds.len()
            invariant
                0 <= i <= self.kinds@.len(),
                forall|j: int| 0 <= j < i ==> (#[trigger] self.kinds@[j])@ != kind@,
            decreases self.kinds@.len() - i,
        {
            if self.kinds[i].eq(kind) {
                return true;
            }
            i += 1;
        }
        false
    }

    fn trusted_dealer_gen(
        &self,
        kind: &String,
        peer_ids: &Vec<PeerId>,
        params: &Vec<u8>,
    ) -> (r: Option<SortedMap<ServerModuleConfig>>) {
        if !self.has_kind(kind) {
            return None;
        }
        let mut m: SortedMap<ServerModuleConfig> = SortedMap::new();
        let mut i: usize = 0;
        while i < peer_ids.len()
            invariant
                forall|a: int, b: int|
                    0 <= a < b < peer_ids@.len() ==> (#[trigger] peer_ids@[a]).0 < (
                    #[trigger] peer_ids@[b]).0,
                0 <= i <= peer_ids@.len(),
                m.wf(),
                m.entries_seq().len() == i,
                forall|j: int| 0 <= j < i ==> (#[trigger] m.entries_seq()[j]).0 == peer_ids@[j].0,
                m.dseq() =~= peer_ids@.map_values(|p: PeerId| p.0).subrange(0, i as int)
                    .map_values(
                    |p: u16| (p, Self::spec_static_module_config(kind@, params@)),
                ),
            decreases peer_ids@.len() - i,
        {
            let k = peer_ids[i].0;
            proof {
                assert forall|j: int|
                    0 <= j < m.spec_len() implies (#[trigger] m.entries_seq()[j]).0 < k by {
                    assert(peer_ids@[j].0 < peer_ids@[i as int].0);
                }
            }
            m.push_back(k, Self::static_module_config(kind, params));
            i += 1;
            proof {
                assert(m.dseq() =~= peer_ids@.map_values(|p: PeerId| p.0).subrange(0, i as int)
                    .map_values(|p: u16| (p, Self::spec_static_module_config(kind@, params@))));
            }
        }
        proof {
            let ids = peer_ids@.map_values(|p: PeerId| p.0);
            assert(ids.subrange(0, ids.len() as int) =~= ids);
            assert(m.dseq().map_values(|e: (u16, ServerModuleConfigV)| e.0) =~= ids);
        }
        Some(m)
    }

    fn validate_config(
        &self,
        kind: &String,
        identity: PeerId,
        cfg: &ServerModuleConfig,
    ) -> (r: Option<Result<(), String>>) {
        if !self.has_kind(kind) {
            return None;
        }
        if cfg.consensus.kind.eq(kind) {
            Some(Ok(()))
        } else {
            Some(Err(String::from_str("module kind does not match its configuration")))
        }
    }

    fn get_client_config(
        &self,
        kind: &String,
        instance: ModuleInstanceId,
        cfg: &ServerModuleConsensusConfig,
    ) -> (r: Option<Result<ClientModuleConfig, String>>) {
        if !self.has_kind(kind) {
            return None;
        }
        let record = ClientModuleConfig {
            kind: cfg.kind.clone(),
            config: crate::types::clone_bytes(&cfg.config),
        };
        Some(Ok(record))
    }

    fn supported_api_versions(&self, kind: &String) -> (r: Option<SupportedModuleApiVersions>) {
        if !self.has_kind(kind) {
            return None;
        }
        Some(
            SupportedModuleApiVersions {
                core_consensus_major: 2,
                core_consensus_minor: 0,
                module_consensus_major: 1,
                module_consensus_minor: 0,
            },
        )
    }
}

} // verus!
