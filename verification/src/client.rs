//! The client-facing projection of a server configuration, and the API
//! versions this server and its modules speak.

use vstd::prelude::*;

use crate::config::{ServerConfig, ServerConfigConsensus};
use crate::registry::{ClientModuleConfig, ModuleInitRegistry, SupportedModuleApiVersions};
use crate::sorted_map::{entries_sorted, lemma_seq_lookup_entries, seq_lookup, SortedMap};
use crate::types::{
    clone_bytes_map, core_consensus_version, spec_core_consensus_version, CoreConsensusVersion,
    ModuleInstanceId, PeerUrl,
};

verus! {

/// One version of the server's API.
#[derive(Clone, Copy, Debug, PartialEq, Eq, Structural)]
pub struct ApiVersion {
    pub major: u32,
    pub minor: u32,
}

impl DeepView for ApiVersion {
    type V = ApiVersion;

    open spec fn deep_view(&self) -> ApiVersion {
        *self
    }
}

/// A set of supported API versions: at most one entry per major version, in
/// increasing major order.
pub struct MultiApiVersion {
    pub versions: Vec<ApiVersion>,
}

impl MultiApiVersion {
    pub open spec fn wf(self) -> bool {
        forall|i: int, j: int|
            0 <= i < j < self.versions@.len() ==> (#[trigger] self.versions@[i]).major < (
            #[trigger] self.versions@[j]).major
    }

    /// Collect versions into a set, rejecting two entries that share a major
    /// version; succeeds exactly on inputs with strictly increasing majors.
    pub fn try_from_iter(versions: Vec<ApiVersion>) -> (r: Result<MultiApiVersion, ()>)
        ensures
            r matches Ok(m) ==> m.wf() && m.versions@ == versions@,
            r is Ok <==> (forall|i: int, j: int|
                0 <= i < j < versions@.len() ==> (#[trigger] versions@[i]).major < (
                #[trigger] versions@[j]).major),
    {
        let n = versions.len();
        let mut i: usize = 1;
        while i < n
            invariant
                n == versions@.len(),
                1 <= i || n == 0,
                i <= n || (n == 0 && i == 1),
                forall|j: int|
                    1 <= j < i && j < n ==> (#[trigger] versions@[j - 1]).major
                        < versions@[j].major,
            decreases n - i,
        {
            if versions[i - 1].major >= versions[i].major {
                return Err(());
            }
            i += 1;
        }
        proof {
            assert forall|a: int, b: int|
                0 <= a < b < versions@.len() implies (#[trigger] versions@[a]).major < (
            #[trigger] versions@[b]).major by {
                Self::lemma_sorted_from_adjacent(versions@, a, b);
            }
        }
        Ok(MultiApiVersion { versions })
    }

    proof fn lemma_sorted_from_adjacent(s: Seq<ApiVersion>, a: int, b: int)
        requires
            forall|j: int| 1 <= j < s.len() ==> (#[trigger] s[j - 1]).major < s[j].major,
            0 <= a < b < s.len(),
        ensures
            s[a].major < s[b].major,
        decreases b - a,
    {
        if a + 1 < b {
            Self::lemma_sorted_from_adjacent(s, a, b - 1);
        }
        assert(s[b - 1].major < s[b].major);
    }
}

/// The core versions this server supports.
pub struct SupportedCoreApiVersions {
    pub core_consensus: CoreConsensusVersion,
    pub api: MultiApiVersion,
}

/// The versions this server and each of its modules support.
pub struct SupportedApiVersionsSummary {
    pub core: SupportedCoreApiVersions,
    pub modules: SortedMap<SupportedModuleApiVersions>,
}

/// The consensus-wide values every client receives.
pub struct GlobalClientConfig {
    /// Network addresses and names of all peer APIs.
    pub api_endpoints: SortedMap<PeerUrl>,
    /// Public keys authenticating each peer's atomic-broadcast messages.
    pub broadcast_public_keys: Option<SortedMap<Vec<u8>>>,
    /// Agreed-on core consensus version.
    pub consensus_version: CoreConsensusVersion,
    /// Additional values the federation transmits to its clients.
    pub meta: Vec<(String, String)>,
}

/// The client-facing configuration: the global values and each module's
/// client-visible record.
pub struct ClientConfig {
    pub global: GlobalClientConfig,
    pub modules: SortedMap<ClientModuleConfig>,
}

/// Why a client configuration could not be derived.
#[derive(Debug)]
pub enum ClientConfigError {
    /// A module kind of the consensus section has no registered
    /// implementation.
    KindNotRegistered(ModuleInstanceId),
    /// A module's own translation to its client-visible form failed.
    ModuleError(ModuleInstanceId, String),
}

impl ServerConfig {
    /// Api versions supported by this server.
    pub fn supported_api_versions() -> (r: SupportedCoreApiVersions)
        ensures
            r.core_consensus == spec_core_consensus_version(),
            r.api.wf(),
            r.api.versions@ == seq![ApiVersion { major: 0, minor: 5 }],
    {
        let mut versions: Vec<ApiVersion> = Vec::new();
        versions.push(ApiVersion { major: 0, minor: 5 });
        proof {
            assert(versions@ =~= seq![ApiVersion { major: 0, minor: 5 }]);
        }
        let api = match MultiApiVersion::try_from_iter(versions) {
            Ok(m) => m,
            Err(()) => vstd::pervasive::unreached(),
        };
        SupportedCoreApiVersions { core_consensus: core_consensus_version(), api }
    }

    /// The versions this server and each configured module support; every
    /// configured module kind must be registered.
    pub fn supported_api_versions_summary<R: ModuleInitRegistry>(
        modules: &SortedMap<crate::types::ServerModuleConsensusConfig>,
        registry: &R,
    ) -> (r: SupportedApiVersionsSummary)
        requires
            modules.wf(),
            forall|j: int|
                0 <= j < modules.dseq().len() ==> registry.registered(
                    (#[trigger] modules.dseq()[j]).1.kind,
                ),
        ensures
            r.core.core_consensus == spec_core_consensus_version(),
            r.modules.wf(),
            r.modules.dseq().map_values(|e: (u16, SupportedModuleApiVersions)| e.0)
                == modules.dseq().map_values(
                |e: (u16, crate::types::ServerModuleConsensusConfigV)| e.0,
            ),
    {
        let entries = modules.entries();
        let mut out: SortedMap<SupportedModuleApiVersions> = SortedMap::new();
        let mut i: usize = 0;
        while i < entries.len()
            invariant
                modules.wf(),
                entries@ == modules.entries_seq(),
                forall|j: int|
                    0 <= j < modules.dseq().len() ==> registry.registered(
                        (#[trigger] modules.dseq()[j]).1.kind,
                    ),
                0 <= i <= entries@.len(),
                out.wf(),
                out.entries_seq().len() == i,
                forall|j: int| 0 <= j < i ==> (#[trigger] out.entries_seq()[j]).0 == entries@[j].0,
            decreases entries@.len() - i,
        {
            let k = entries[i].0;
            proof {
                assert(modules.dseq()[i as int].1.kind == entries@[i as int].1.kind@);
            }
            let versions = match registry.supported_api_versions(&entries[i].1.kind) {
                Some(v) => v,
                None => vstd::pervasive::unreached(),
            };
            proof {
                assert forall|j: int|
                    0 <= j < out.spec_len() implies (#[trigger] out.entries_seq()[j]).0 < k by {
                    assert(entries@[j].0 < entries@[i as int].0);
                }
            }
            out.push_back(k, versions);
            i += 1;
        }
        proof {
            assert(out.dseq().map_values(|e: (u16, SupportedModuleApiVersions)| e.0)
                =~= modules.dseq().map_values(
                |e: (u16, crate::types::ServerModuleConsensusConfigV)| e.0,
            ));
        }
        SupportedApiVersionsSummary {
            core: Self::supported_api_versions(),
            modules: out,
        }
    }
}

impl ServerConfigConsensus {
    /// Project the consensus section into the configuration handed to
    /// clients: the global values unchanged, and each module's consensus
    /// record translated by that module's registered generator.
    pub fn to_client_config<R: ModuleInitRegistry>(&self, registry: &R) -> (r: Result<
        ClientConfig,
        ClientConfigError,
    >)
        requires
            self.wf(),
        ensures
            r matches Ok(cc) ==> {
                &&& cc.global.api_endpoints.wf()
                &&& cc.global.api_endpoints.dseq() == self.api_endpoints.dseq()
                &&& cc.global.broadcast_public_keys matches Some(b) && b.dseq()
                    == self.broadcast_public_keys.dseq()
                &&& cc.global.consensus_version == self.version
                &&& cc.global.meta.deep_view() == self.meta.deep_view()
                &&& cc.modules.wf()
                &&& cc.modules.dseq().len() == self.modules.dseq().len()
                // each module's client record is the registry's own
                // translation of that module's consensus record
                &&& forall|j: int|
                    0 <= j < self.modules.dseq().len() ==> {
                        let entry = #[trigger] self.modules.dseq()[j];
                        &&& registry.registered(entry.1.kind)
                        &&& (registry.spec_get_client_config(entry.1.kind, entry.0, entry.1)
                            matches Ok(c) && cc.modules.dseq()[j] == (entry.0, c))
                    }
            },
            // an unregistered kind forces failure
            (exists|j: int|
                0 <= j < self.modules.dseq().len() && !registry.registered(
                    (#[trigger] self.modules.dseq()[j]).1.kind,
                )) ==> r is Err,
            r matches Err(ClientConfigError::KindNotRegistered(id)) ==> (seq_lookup(
                self.modules.dseq(),
                id,
            ) matches Some(m) && !registry.registered(m.kind)),
            // a failed translation surfaces that module's own verdict
            r matches Err(ClientConfigError::ModuleError(id, e)) ==> (seq_lookup(
                self.modules.dseq(),
                id,
            ) matches Some(m) && registry.registered(m.kind)
                && (registry.spec_get_client_config(m.kind, id, m) matches Err(msg) && msg
                == e@)),
            // with no modules nothing can fail: the projection is owed
            self.modules.dseq().len() == 0 ==> r is Ok,
    {
        proof {
            assert forall|a: int, b: int|
                0 <= a < b < self.modules.dseq().len() implies (
            #[trigger] self.modules.dseq()[a]).0 < (#[trigger] self.modules.dseq()[b]).0 by {
                assert(self.modules.dseq()[a].0 == self.modules.entries_seq()[a].0);
                assert(self.modules.dseq()[b].0 == self.modules.entries_seq()[b].0);
            }
        }
        let entries = self.modules.entries();
        let mut out: SortedMap<ClientModuleConfig> = SortedMap::new();
        let mut i: usize = 0;
        while i < entries.len()
            invariant
                self.wf(),
                entries@ == self.modules.entries_seq(),
                0 <= i <= entries@.len(),
                out.wf(),
                out.entries_seq().len() == i,
                forall|j: int| 0 <= j < i ==> (#[trigger] out.entries_seq()[j]).0 == entries@[j].0,
                forall|j: int|
                    0 <= j < i ==> {
                        let entry = #[trigger] self.modules.dseq()[j];
                        &&& registry.registered(entry.1.kind)
                        &&& (registry.spec_get_client_config(entry.1.kind, entry.0, entry.1)
                            matches Ok(c) && out.dseq()[j] == (entry.0, c))
                    },
            decreases entries@.len() - i,
        {
            let k = entries[i].0;
            proof {
                assert(entries_sorted(self.modules.dseq()));
                assert(self.modules.dseq()[i as int].0 == k);
                assert(self.modules.dseq()[i as int].1.kind == entries@[i as int].1.kind@);
                assert(self.modules.dseq()[i as int].1 == entries@[i as int].1.deep_view());
                lemma_seq_lookup_entries(self.modules.dseq(), k);
                assert(seq_lookup(self.modules.dseq(), k) == Some(
                    self.modules.dseq()[i as int].1,
                ));
            }
            match registry.get_client_config(&entries[i].1.kind, k, &entries[i].1) {
                None => {
                    return Err(ClientConfigError::KindNotRegistered(k));
                },
                Some(Err(e)) => {
                    return Err(ClientConfigError::ModuleError(k, e));
                },
                Some(Ok(cfg)) => {
                    proof {
                        assert forall|j: int|
                            0 <= j < out.spec_len() implies (
                        #[trigger] out.entries_seq()[j]).0 < k by {
                            assert(entries@[j].0 < entries@[i as int].0);
                        }
                        assert(registry.spec_get_client_config(
                            self.modules.dseq()[i as int].1.kind,
                            k,
                            self.modules.dseq()[i as int].1,
                        ) matches Ok(c) && cfg.deep_view() == c);
                    }
                    out.push_back(k, cfg);
                },
            }
            i += 1;
        }
        let meta = crate::config::clone_meta(&self.meta);
        let mut api_endpoints: SortedMap<PeerUrl> = SortedMap::new();
        let pentries = self.api_endpoints.entries();
        let mut i2: usize = 0;
        while i2 < pentries.len()
            invariant
                self.wf(),
                pentries@ == self.api_endpoints.entries_seq(),
                0 <= i2 <= pentries@.len(),
                api_endpoints.wf(),
                api_endpoints.entries_seq().len() == i2,
                forall|j: int|
                    0 <= j < i2 ==> (#[trigger] api_endpoints.entries_seq()[j]).0
                        == pentries@[j].0,
                api_endpoints.dseq() =~= self.api_endpoints.dseq().subrange(0, i2 as int),
            decreases pentries@.len() - i2,
        {
            let k = pentries[i2].0;
            proof {
                assert forall|j: int|
                    0 <= j < api_endpoints.spec_len() implies (
                #[trigger] api_endpoints.entries_seq()[j]).0 < k by {
                    assert(pentries@[j].0 < pentries@[i2 as int].0);
                }
            }
            api_endpoints.push_back(k, pentries[i2].1.clone());
            i2 += 1;
            proof {
                assert(api_endpoints.dseq() =~= self.api_endpoints.dseq().subrange(
                    0,
                    i2 as int,
                ));
            }
        }
        proof {
            assert(self.api_endpoints.dseq().subrange(
                0,
                self.api_endpoints.dseq().len() as int,
            ) =~= self.api_endpoints.dseq());
        }
        Ok(
            ClientConfig {
                global: GlobalClientConfig {
                    api_endpoints,
                    broadcast_public_keys: Some(clone_bytes_map(&self.broadcast_public_keys)),
                    consensus_version: self.version,
                    meta,
                },
                modules: out,
            },
        )
    }
}

} // verus!
