//! The server configuration: the generation paths' output, split into a
//! consensus section (required byte-identical on every peer), a local
//! section and a private section, together with the operator-supplied
//! generation parameters and the projection that assembles a config from
//! them.

use vstd::prelude::*;

use crate::codec::{hex_encode, spec_hex_decode, spec_hex_of};
use crate::sorted_map::{seq_lookup, SortedMap};
use crate::types::{
    clone_bytes, core_consensus_version, spec_core_consensus_version, CoreConsensusVersion,
    ModuleInstanceId,
    ModuleRawConfig, ModuleRawConfigV, PeerConnectionInfo, PeerConnectionInfoV, PeerIrohEndpoints,
    PeerIrohEndpointsV, PeerUrl, PeerUrlV, ServerModuleConfig, ServerModuleConfigV,
    ServerModuleConsensusConfig, ServerModuleConsensusConfigV,
};
use crate::PeerId;

verus! {

/// The default maximum open connections the API can handle.
pub const DEFAULT_MAX_CLIENT_CONNECTIONS: u32 = 1000;

/// Broadcast round delay resulting in the default session timing.
pub const DEFAULT_BROADCAST_ROUND_DELAY_MS: u16 = 50;

/// Rounds per session resulting in a three-minute session time.
pub const DEFAULT_BROADCAST_ROUNDS_PER_SESSION: u16 = 3600;

pub fn default_broadcast_rounds_per_session() -> (r: u16)
    ensures
        r == DEFAULT_BROADCAST_ROUNDS_PER_SESSION,
{
    DEFAULT_BROADCAST_ROUNDS_PER_SESSION
}

/// Broadcast round timing, passed in explicitly so that test environments
/// can shorten sessions without ambient state.
#[derive(Clone, Copy, Debug, PartialEq, Eq, Structural)]
pub struct BroadcastSettings {
    pub rounds_per_session: u16,
    pub round_delay_ms: u16,
}

impl BroadcastSettings {
    /// The production timing.
    pub fn default_timing() -> (r: Self)
        ensures
            r.rounds_per_session == DEFAULT_BROADCAST_ROUNDS_PER_SESSION,
            r.round_delay_ms == DEFAULT_BROADCAST_ROUND_DELAY_MS,
    {
        BroadcastSettings {
            rounds_per_session: DEFAULT_BROADCAST_ROUNDS_PER_SESSION,
            round_delay_ms: DEFAULT_BROADCAST_ROUND_DELAY_MS,
        }
    }
}

/// Everything that must be the same for every server of the federation.
pub struct ServerConfigConsensus {
    /// The version of the binary code running.
    pub code_version: String,
    /// Agreed-on core consensus version.
    pub version: CoreConsensusVersion,
    /// Public keys authenticating each peer's atomic-broadcast messages.
    pub broadcast_public_keys: SortedMap<Vec<u8>>,
    /// Number of broadcast rounds per session.
    pub broadcast_rounds_per_session: u16,
    /// Network addresses and names of all peer APIs.
    pub api_endpoints: SortedMap<PeerUrl>,
    /// Public keys of all alternate-transport endpoints.
    pub iroh_endpoints: SortedMap<PeerIrohEndpoints>,
    /// Certificates for TLS communication, hex-encoded, one per peer.
    pub tls_certs: SortedMap<String>,
    /// Consensus configuration of every module instance.
    pub modules: SortedMap<ServerModuleConsensusConfig>,
    /// Additional values the federation transmits to its clients.
    pub meta: Vec<(String, String)>,
}

pub struct ServerConfigConsensusV {
    pub code_version: Seq<char>,
    pub version: CoreConsensusVersion,
    pub broadcast_public_keys: Seq<(u16, Seq<u8>)>,
    pub broadcast_rounds_per_session: u16,
    pub api_endpoints: Seq<(u16, PeerUrlV)>,
    pub iroh_endpoints: Seq<(u16, PeerIrohEndpointsV)>,
    pub tls_certs: Seq<(u16, Seq<char>)>,
    pub modules: Seq<(u16, ServerModuleConsensusConfigV)>,
    pub meta: Seq<(Seq<char>, Seq<char>)>,
}

impl DeepView for ServerConfigConsensus {
    type V = ServerConfigConsensusV;

    open spec fn deep_view(&self) -> ServerConfigConsensusV {
        ServerConfigConsensusV {
            code_version: self.code_version@,
            version: self.version,
            broadcast_public_keys: self.broadcast_public_keys.dseq(),
            broadcast_rounds_per_session: self.broadcast_rounds_per_session,
            api_endpoints: self.api_endpoints.dseq(),
            iroh_endpoints: self.iroh_endpoints.dseq(),
            tls_certs: self.tls_certs.dseq(),
            modules: self.modules.dseq(),
            meta: self.meta.deep_view(),
        }
    }
}

impl ServerConfigConsensus {
    pub open spec fn wf(self) -> bool {
        self.broadcast_public_keys.wf() && self.api_endpoints.wf() && self.iroh_endpoints.wf()
            && self.tls_certs.wf() && self.modules.wf()
    }
}

/// Locally configurable, non-secret configuration.
pub struct ServerConfigLocal {
    /// Network addresses and names of all P2P endpoints.
    pub p2p_endpoints: SortedMap<PeerUrl>,
    /// Our own peer id.
    pub identity: PeerId,
    /// How many API connections we accept.
    pub max_connections: u32,
    /// Delay per broadcast round, in milliseconds.
    pub broadcast_round_delay_ms: u16,
    /// Non-consensus, non-private module configuration.
    pub modules: SortedMap<ModuleRawConfig>,
}

pub struct ServerConfigLocalV {
    pub p2p_endpoints: Seq<(u16, PeerUrlV)>,
    pub identity: PeerId,
    pub max_connections: u32,
    pub broadcast_round_delay_ms: u16,
    pub modules: Seq<(u16, ModuleRawConfigV)>,
}

impl DeepView for ServerConfigLocal {
    type V = ServerConfigLocalV;

    open spec fn deep_view(&self) -> ServerConfigLocalV {
        ServerConfigLocalV {
            p2p_endpoints: self.p2p_endpoints.dseq(),
            identity: self.identity,
            max_connections: self.max_connections,
            broadcast_round_delay_ms: self.broadcast_round_delay_ms,
            modules: self.modules.dseq(),
        }
    }
}

impl ServerConfigLocal {
    pub open spec fn wf(self) -> bool {
        self.p2p_endpoints.wf() && self.modules.wf()
    }
}

/// Secret configuration; never transmitted.
pub struct ServerConfigPrivate {
    /// Secret API authentication string.
    pub api_auth: String,
    /// Secret key of our TLS endpoint, hex-encoded.
    pub tls_key: Option<String>,
    /// Secret key of our alternate API endpoint, where one is used.
    pub iroh_api_sk: Option<Vec<u8>>,
    /// Secret key of our alternate P2P endpoint, where one is used.
    pub iroh_p2p_sk: Option<Vec<u8>>,
    /// Secret key signing our atomic-broadcast messages.
    pub broadcast_secret_key: Vec<u8>,
    /// Secret module configuration.
    pub modules: SortedMap<ModuleRawConfig>,
}

pub struct ServerConfigPrivateV {
    pub api_auth: Seq<char>,
    pub tls_key: Option<Seq<char>>,
    pub iroh_api_sk: Option<Seq<u8>>,
    pub iroh_p2p_sk: Option<Seq<u8>>,
    pub broadcast_secret_key: Seq<u8>,
    pub modules: Seq<(u16, ModuleRawConfigV)>,
}

impl DeepView for ServerConfigPrivate {
    type V = ServerConfigPrivateV;

    open spec fn deep_view(&self) -> ServerConfigPrivateV {
        ServerConfigPrivateV {
            api_auth: self.api_auth@,
            tls_key: self.tls_key.deep_view(),
            iroh_api_sk: self.iroh_api_sk.deep_view(),
            iroh_p2p_sk: self.iroh_p2p_sk.deep_view(),
            broadcast_secret_key: self.broadcast_secret_key@,
            modules: self.modules.dseq(),
        }
    }
}

impl ServerConfigPrivate {
    pub open spec fn wf(self) -> bool {
        self.modules.wf()
    }
}

/// The full configuration of one server.
pub struct ServerConfig {
    /// Everything that must be the same for every server.
    pub consensus: ServerConfigConsensus,
    /// Everything locally configurable and not secret.
    pub local: ServerConfigLocal,
    /// Everything that will be stored encrypted, such as key material.
    pub private: ServerConfigPrivate,
}

pub struct ServerConfigV {
    pub consensus: ServerConfigConsensusV,
    pub local: ServerConfigLocalV,
    pub private: ServerConfigPrivateV,
}

impl DeepView for ServerConfig {
    type V = ServerConfigV;

    open spec fn deep_view(&self) -> ServerConfigV {
        ServerConfigV {
            consensus: self.consensus.deep_view(),
            local: self.local.deep_view(),
            private: self.private.deep_view(),
        }
    }
}

impl ServerConfig {
    pub open spec fn wf(self) -> bool {
        self.consensus.wf() && self.local.wf() && self.private.wf()
    }
}

/// Parameters of one module's generation procedure.
pub struct ModuleGenParams {
    pub kind: String,
    pub params: Vec<u8>,
}

pub struct ModuleGenParamsV {
    pub kind: Seq<char>,
    pub params: Seq<u8>,
}

impl DeepView for ModuleGenParams {
    type V = ModuleGenParamsV;

    open spec fn deep_view(&self) -> ModuleGenParamsV {
        ModuleGenParamsV { kind: self.kind@, params: self.params@ }
    }
}

impl Clone for ModuleGenParams {
    fn clone(&self) -> (r: Self)
        ensures
            r.deep_view() == self.deep_view(),
    {
        ModuleGenParams { kind: self.kind.clone(), params: clone_bytes(&self.params) }
    }
}

/// Generation parameters that never leave this peer's process.
pub struct ConfigGenParamsLocal {
    /// Our own peer id.
    pub our_id: PeerId,
    /// Our TLS private key, DER bytes.
    pub our_private_key: Vec<u8>,
    /// Secret API authentication string.
    pub api_auth: String,
    /// Bind address for P2P communication.
    pub p2p_bind: String,
    /// Bind address for API communication.
    pub api_bind: String,
}

pub struct ConfigGenParamsLocalV {
    pub our_id: PeerId,
    pub our_private_key: Seq<u8>,
    pub api_auth: Seq<char>,
    pub p2p_bind: Seq<char>,
    pub api_bind: Seq<char>,
}

impl DeepView for ConfigGenParamsLocal {
    type V = ConfigGenParamsLocalV;

    open spec fn deep_view(&self) -> ConfigGenParamsLocalV {
        ConfigGenParamsLocalV {
            our_id: self.our_id,
            our_private_key: self.our_private_key@,
            api_auth: self.api_auth@,
            p2p_bind: self.p2p_bind@,
            api_bind: self.api_bind@,
        }
    }
}

impl Clone for ConfigGenParamsLocal {
    fn clone(&self) -> (r: Self)
        ensures
            r.deep_view() == self.deep_view(),
    {
        ConfigGenParamsLocal {
            our_id: self.our_id,
            our_private_key: clone_bytes(&self.our_private_key),
            api_auth: self.api_auth.clone(),
            p2p_bind: self.p2p_bind.clone(),
            api_bind: self.api_bind.clone(),
        }
    }
}

/// Generation parameters that every peer must hold identically.
pub struct ConfigGenParamsConsensus {
    /// Connection information of all peers, ourselves included.
    pub peers: SortedMap<PeerConnectionInfo>,
    /// Values destined for the clients.
    pub meta: Vec<(String, String)>,
    /// Per-module generation parameters.
    pub modules: SortedMap<ModuleGenParams>,
}

pub struct ConfigGenParamsConsensusV {
    pub peers: Seq<(u16, PeerConnectionInfoV)>,
    pub meta: Seq<(Seq<char>, Seq<char>)>,
    pub modules: Seq<(u16, ModuleGenParamsV)>,
}

impl DeepView for ConfigGenParamsConsensus {
    type V = ConfigGenParamsConsensusV;

    open spec fn deep_view(&self) -> ConfigGenParamsConsensusV {
        ConfigGenParamsConsensusV {
            peers: self.peers.dseq(),
            meta: self.meta.deep_view(),
            modules: self.modules.dseq(),
        }
    }
}

/// Everything necessary for generating a `ServerConfig` during setup.
pub struct ConfigGenParams {
    pub local: ConfigGenParamsLocal,
    pub consensus: ConfigGenParamsConsensus,
}

pub struct ConfigGenParamsV {
    pub local: ConfigGenParamsLocalV,
    pub consensus: ConfigGenParamsConsensusV,
}

impl DeepView for ConfigGenParams {
    type V = ConfigGenParamsV;

    open spec fn deep_view(&self) -> ConfigGenParamsV {
        ConfigGenParamsV { local: self.local.deep_view(), consensus: self.consensus.deep_view() }
    }
}

impl ConfigGenParams {
    pub open spec fn wf(self) -> bool {
        self.consensus.peers.wf() && self.consensus.modules.wf()
    }
}

/// Copy a peer table; the result stores the same records under the same
/// keys.
pub fn clone_peers_map(m: &SortedMap<PeerConnectionInfo>) -> (r: SortedMap<PeerConnectionInfo>)
    requires
        m.wf(),
    ensures
        r.wf(),
        r.dseq() == m.dseq(),
{
    let entries = m.entries();
    let mut r: SortedMap<PeerConnectionInfo> = SortedMap::new();
    let mut i: usize = 0;
    while i < entries.len()
        invariant
            m.wf(),
            entries@ == m.entries_seq(),
            0 <= i <= entries@.len(),
            r.wf(),
            r.entries_seq().len() == i,
            forall|j: int| 0 <= j < i ==> (#[trigger] r.entries_seq()[j]).0 == entries@[j].0,
            r.dseq() =~= m.dseq().subrange(0, i as int),
        decreases entries@.len() - i,
    {
        let k = entries[i].0;
        proof {
            assert forall|j: int|
                0 <= j < r.spec_len() implies (#[trigger] r.entries_seq()[j]).0 < k by {
                assert(entries@[j].0 < entries@[i as int].0);
            }
        }
        r.push_back(k, entries[i].1.clone());
        i += 1;
        proof {
            assert(r.dseq() =~= m.dseq().subrange(0, i as int));
        }
    }
    proof {
        assert(m.dseq().subrange(0, m.dseq().len() as int) =~= m.dseq());
    }
    r
}

/// Copy a table of module generation parameters.
pub fn clone_module_params_map(m: &SortedMap<ModuleGenParams>) -> (r: SortedMap<ModuleGenParams>)
    requires
        m.wf(),
    ensures
        r.wf(),
        r.dseq() == m.dseq(),
{
    let entries = m.entries();
    let mut r: SortedMap<ModuleGenParams> = SortedMap::new();
    let mut i: usize = 0;
    while i < entries.len()
        invariant
            m.wf(),
            entries@ == m.entries_seq(),
            0 <= i <= entries@.len(),
            r.wf(),
            r.entries_seq().len() == i,
            forall|j: int| 0 <= j < i ==> (#[trigger] r.entries_seq()[j]).0 == entries@[j].0,
            r.dseq() =~= m.dseq().subrange(0, i as int),
        decreases entries@.len() - i,
    {
        let k = entries[i].0;
        proof {
            assert forall|j: int|
                0 <= j < r.spec_len() implies (#[trigger] r.entries_seq()[j]).0 < k by {
                assert(entries@[j].0 < entries@[i as int].0);
            }
        }
        r.push_back(k, entries[i].1.clone());
        i += 1;
        proof {
            assert(r.dseq() =~= m.dseq().subrange(0, i as int));
        }
    }
    proof {
        assert(m.dseq().subrange(0, m.dseq().len() as int) =~= m.dseq());
    }
    r
}

impl ConfigGenParams {
    /// Copy the whole parameter record.
    pub fn duplicate(&self) -> (r: Self)
        requires
            self.wf(),
        ensures
            r.wf(),
            r.deep_view() == self.deep_view(),
    {
        ConfigGenParams {
            local: self.local.clone(),
            consensus: ConfigGenParamsConsensus {
                peers: clone_peers_map(&self.consensus.peers),
                meta: clone_meta(&self.consensus.meta),
                modules: clone_module_params_map(&self.consensus.modules),
            },
        }
    }
}

/// Settings an operator configures before config generation starts.
pub struct ConfigGenSettings {
    /// Bind address for our P2P connection.
    pub p2p_bind: String,
    /// Bind address for our API connection.
    pub api_bind: String,
    /// URL of our P2P connection.
    pub p2p_url: String,
    /// URL of our API connection.
    pub api_url: String,
    /// Values destined for the clients.
    pub meta: Vec<(String, String)>,
    /// Per-module generation parameters.
    pub modules: SortedMap<ModuleGenParams>,
}

/// The API endpoint table derived from the announced peer information.
pub open spec fn spec_api_urls(peers: Seq<(u16, PeerConnectionInfoV)>) -> Seq<(u16, PeerUrlV)> {
    peers.map_values(
        |e: (u16, PeerConnectionInfoV)| (e.0, PeerUrlV { name: e.1.name, url: e.1.api_url }),
    )
}

/// The P2P endpoint table derived from the announced peer information.
pub open spec fn spec_p2p_urls(peers: Seq<(u16, PeerConnectionInfoV)>) -> Seq<(u16, PeerUrlV)> {
    peers.map_values(
        |e: (u16, PeerConnectionInfoV)| (e.0, PeerUrlV { name: e.1.name, url: e.1.p2p_url }),
    )
}

/// The TLS certificate table, hex-encoded, derived from the announced peer
/// information.
pub open spec fn spec_tls_certs(peers: Seq<(u16, PeerConnectionInfoV)>) -> Seq<(u16, Seq<char>)> {
    peers.map_values(|e: (u16, PeerConnectionInfoV)| (e.0, spec_hex_of(e.1.cert)))
}

impl ConfigGenParams {
    /// The ids of all participating peers, in increasing order.
    pub fn peer_ids(&self) -> (r: Vec<PeerId>)
        requires
            self.wf(),
        ensures
            r@.map_values(|p: PeerId| p.0) == self.consensus.peers.dseq().map_values(
                |e: (u16, PeerConnectionInfoV)| e.0,
            ),
    {
        let entries = self.consensus.peers.entries();
        let mut r: Vec<PeerId> = Vec::new();
        let mut i: usize = 0;
        while i < entries.len()
            invariant
                entries@ == self.consensus.peers.entries_seq(),
                0 <= i <= entries@.len(),
                r@.len() == i,
                forall|j: int| 0 <= j < i ==> (#[trigger] r@[j]).0 == entries@[j].0,
            decreases entries@.len() - i,
        {
            r.push(PeerId(entries[i].0));
            i += 1;
        }
        proof {
            assert(r@.map_values(|p: PeerId| p.0) =~= self.consensus.peers.dseq().map_values(
                |e: (u16, PeerConnectionInfoV)| e.0,
            ));
        }
        r
    }

    /// The TLS certificate of every peer, hex-encoded, keyed by peer id.
    pub fn tls_certs(&self) -> (r: SortedMap<String>)
        requires
            self.wf(),
        ensures
            r.wf(),
            r.dseq() == spec_tls_certs(self.consensus.peers.dseq()),
    {
        let entries = self.consensus.peers.entries();
        let mut r: SortedMap<String> = SortedMap::new();
        let mut i: usize = 0;
        while i < entries.len()
            invariant
                self.wf(),
                entries@ == self.consensus.peers.entries_seq(),
                0 <= i <= entries@.len(),
                r.wf(),
                r.entries_seq().len() == i,
                forall|j: int| 0 <= j < i ==> (#[trigger] r.entries_seq()[j]).0 == entries@[j].0,
                r.dseq() =~= spec_tls_certs(
                    self.consensus.peers.dseq().subrange(0, i as int),
                ),
            decreases entries@.len() - i,
        {
            let k = entries[i].0;
            let cert_hex = hex_encode(&entries[i].1.cert);
            proof {
                assert forall|j: int|
                    0 <= j < r.spec_len() implies (#[trigger] r.entries_seq()[j]).0 < k by {
                    assert(entries@[j].0 < entries@[i as int].0);
                }
            }
            r.push_back(k, cert_hex);
            i += 1;
            proof {
                assert(r.dseq() =~= spec_tls_certs(
                    self.consensus.peers.dseq().subrange(0, i as int),
                ));
            }
        }
        proof {
            assert(self.consensus.peers.dseq().subrange(
                0,
                self.consensus.peers.dseq().len() as int,
            ) =~= self.consensus.peers.dseq());
        }
        r
    }

    /// The P2P endpoint of every peer, keyed by peer id.
    pub fn p2p_urls(&self) -> (r: SortedMap<PeerUrl>)
        requires
            self.wf(),
        ensures
            r.wf(),
            r.dseq() == spec_p2p_urls(self.consensus.peers.dseq()),
    {
        let entries = self.consensus.peers.entries();
        let mut r: SortedMap<PeerUrl> = SortedMap::new();
        let mut i: usize = 0;
        while i < entries.len()
            invariant
                self.wf(),
                entries@ == self.consensus.peers.entries_seq(),
                0 <= i <= entries@.len(),
                r.wf(),
                r.entries_seq().len() == i,
                forall|j: int| 0 <= j < i ==> (#[trigger] r.entries_seq()[j]).0 == entries@[j].0,
                r.dseq() =~= spec_p2p_urls(self.consensus.peers.dseq().subrange(0, i as int)),
            decreases entries@.len() - i,
        {
            let k = entries[i].0;
            let url = PeerUrl { name: entries[i].1.name.clone(), url: entries[i].1.p2p_url.clone() };
            proof {
                assert forall|j: int|
                    0 <= j < r.spec_len() implies (#[trigger] r.entries_seq()[j]).0 < k by {
                    assert(entries@[j].0 < entries@[i as int].0);
                }
            }
            r.push_back(k, url);
            i += 1;
            proof {
                assert(r.dseq() =~= spec_p2p_urls(
                    self.consensus.peers.dseq().subrange(0, i as int),
                ));
            }
        }
        proof {
            assert(self.consensus.peers.dseq().subrange(
                0,
                self.consensus.peers.dseq().len() as int,
            ) =~= self.consensus.peers.dseq());
        }
        r
    }

    /// The API endpoint of every peer, keyed by peer id.
    pub fn api_urls(&self) -> (r: SortedMap<PeerUrl>)
        requires
            self.wf(),
        ensures
            r.wf(),
            r.dseq() == spec_api_urls(self.consensus.peers.dseq()),
    {
        let entries = self.consensus.peers.entries();
        let mut r: SortedMap<PeerUrl> = SortedMap::new();
        let mut i: usize = 0;
        while i < entries.len()
            invariant
                self.wf(),
                entries@ == self.consensus.peers.entries_seq(),
                0 <= i <= entries@.len(),
                r.wf(),
                r.entries_seq().len() == i,
                forall|j: int| 0 <= j < i ==> (#[trigger] r.entries_seq()[j]).0 == entries@[j].0,
                r.dseq() =~= spec_api_urls(self.consensus.peers.dseq().subrange(0, i as int)),
            decreases entries@.len() - i,
        {
            let k = entries[i].0;
            let url = PeerUrl { name: entries[i].1.name.clone(), url: entries[i].1.api_url.clone() };
            proof {
                assert forall|j: int|
                    0 <= j < r.spec_len() implies (#[trigger] r.entries_seq()[j]).0 < k by {
                    assert(entries@[j].0 < entries@[i as int].0);
                }
            }
            r.push_back(k, url);
            i += 1;
            proof {
                assert(r.dseq() =~= spec_api_urls(
                    self.consensus.peers.dseq().subrange(0, i as int),
                ));
            }
        }
        proof {
            assert(self.consensus.peers.dseq().subrange(
                0,
                self.consensus.peers.dseq().len() as int,
            ) =~= self.consensus.peers.dseq());
        }
        r
    }
}

/// Copy a meta table.
pub fn clone_meta(v: &Vec<(String, String)>) -> (r: Vec<(String, String)>)
    ensures
        r.deep_view() == v.deep_view(),
{
    let mut r: Vec<(String, String)> = Vec::new();
    let mut i: usize = 0;
    while i < v.len()
        invariant
            0 <= i <= v@.len(),
            r@.len() == i,
            r.deep_view() =~= v.deep_view().subrange(0, i as int),
        decreases v@.len() - i,
    {
        let ghost old_deep = r.deep_view();
        let a = v[i].0.clone();
        let b = v[i].1.clone();
        r.push((a, b));
        i += 1;
        proof {
            assert(r@.len() == i);
            assert(r@[i - 1].deep_view() == v.deep_view()[i - 1]);
            assert forall|j: int| 0 <= j < i implies r.deep_view()[j] == v.deep_view()[j] by {
                if j < i - 1 {
                    assert(r.deep_view()[j] == old_deep[j]);
                }
            }
            assert(r.deep_view() =~= v.deep_view().subrange(0, i as int));
        }
    }
    proof {
        assert(r.deep_view() =~= v.deep_view());
    }
    r
}

/// What `ServerConfig::from` assembles: every field of the result as a
/// function of the generation parameters, the exchanged broadcast keys, this
/// peer's secret key and the collected module configurations.
#[verifier::opaque]
pub open spec fn spec_server_config_from(
    p: ConfigGenParamsV,
    identity: PeerId,
    bpks: Seq<(u16, Seq<u8>)>,
    bsk: Seq<u8>,
    modules: Seq<(u16, ServerModuleConfigV)>,
    code_version: Seq<char>,
    timing: BroadcastSettings,
) -> ServerConfigV {
    ServerConfigV {
        consensus: ServerConfigConsensusV {
            code_version: code_version,
            version: spec_core_consensus_version(),
            broadcast_public_keys: bpks,
            broadcast_rounds_per_session: timing.rounds_per_session,
            api_endpoints: spec_api_urls(p.consensus.peers),
            iroh_endpoints: Seq::empty(),
            tls_certs: spec_tls_certs(p.consensus.peers),
            modules: modules.map_values(
                |e: (u16, ServerModuleConfigV)| (e.0, e.1.consensus),
            ),
            meta: p.consensus.meta,
        },
        local: ServerConfigLocalV {
            p2p_endpoints: spec_p2p_urls(p.consensus.peers),
            identity: identity,
            max_connections: DEFAULT_MAX_CLIENT_CONNECTIONS,
            broadcast_round_delay_ms: timing.round_delay_ms,
            modules: modules.map_values(|e: (u16, ServerModuleConfigV)| (e.0, e.1.local)),
        },
        private: ServerConfigPrivateV {
            api_auth: p.local.api_auth,
            tls_key: Some(spec_hex_of(p.local.our_private_key)),
            iroh_api_sk: None,
            iroh_p2p_sk: None,
            broadcast_secret_key: bsk,
            modules: modules.map_values(|e: (u16, ServerModuleConfigV)| (e.0, e.1.private)),
        },
    }
}

impl ServerConfig {
    /// Creates a new config from the results of a trusted or distributed key
    /// setup, by the same projection rules on either path.
    pub fn from(
        params: &ConfigGenParams,
        identity: PeerId,
        broadcast_public_keys: SortedMap<Vec<u8>>,
        broadcast_secret_key: Vec<u8>,
        modules: &SortedMap<ServerModuleConfig>,
        code_version: String,
        timing: BroadcastSettings,
    ) -> (r: ServerConfig)
        requires
            params.wf(),
            broadcast_public_keys.wf(),
            modules.wf(),
        ensures
            r.wf(),
            r.deep_view() == spec_server_config_from(
                params.deep_view(),
                identity,
                broadcast_public_keys.dseq(),
                broadcast_secret_key@,
                modules.dseq(),
                code_version@,
                timing,
            ),
    {
        let mut consensus_modules: SortedMap<ServerModuleConsensusConfig> = SortedMap::new();
        let mut local_modules: SortedMap<ModuleRawConfig> = SortedMap::new();
        let mut private_modules: SortedMap<ModuleRawConfig> = SortedMap::new();
        let entries = modules.entries();
        let mut i: usize = 0;
        while i < entries.len()
            invariant
                modules.wf(),
                entries@ == modules.entries_seq(),
                0 <= i <= entries@.len(),
                consensus_modules.wf(),
                local_modules.wf(),
                private_modules.wf(),
                consensus_modules.entries_seq().len() == i,
                local_modules.entries_seq().len() == i,
                private_modules.entries_seq().len() == i,
                forall|j: int|
                    0 <= j < i ==> (#[trigger] consensus_modules.entries_seq()[j]).0
                        == entries@[j].0,
                forall|j: int|
                    0 <= j < i ==> (#[trigger] local_modules.entries_seq()[j]).0 == entries@[j].0,
                forall|j: int|
                    0 <= j < i ==> (#[trigger] private_modules.entries_seq()[j]).0
                        == entries@[j].0,
                consensus_modules.dseq() =~= modules.dseq().subrange(0, i as int).map_values(
                    |e: (u16, ServerModuleConfigV)| (e.0, e.1.consensus),
                ),
                local_modules.dseq() =~= modules.dseq().subrange(0, i as int).map_values(
                    |e: (u16, ServerModuleConfigV)| (e.0, e.1.local),
                ),
                private_modules.dseq() =~= modules.dseq().subrange(0, i as int).map_values(
                    |e: (u16, ServerModuleConfigV)| (e.0, e.1.private),
                ),
            decreases entries@.len() - i,
        {
            let k = entries[i].0;
            proof {
                assert forall|j: int|
                    0 <= j < consensus_modules.spec_len() implies (
                #[trigger] consensus_modules.entries_seq()[j]).0 < k by {
                    assert(entries@[j].0 < entries@[i as int].0);
                }
                assert forall|j: int|
                    0 <= j < local_modules.spec_len() implies (
                #[trigger] local_modules.entries_seq()[j]).0 < k by {
                    assert(entries@[j].0 < entries@[i as int].0);
                }
                assert forall|j: int|
                    0 <= j < private_modules.spec_len() implies (
                #[trigger] private_modules.entries_seq()[j]).0 < k by {
                    assert(entries@[j].0 < entries@[i as int].0);
                }
            }
            consensus_modules.push_back(k, entries[i].1.consensus.clone());
            local_modules.push_back(k, entries[i].1.local.clone());
            private_modules.push_back(k, entries[i].1.private.clone());
            i += 1;
            proof {
                assert(consensus_modules.dseq() =~= modules.dseq().subrange(
                    0,
                    i as int,
                ).map_values(|e: (u16, ServerModuleConfigV)| (e.0, e.1.consensus)));
                assert(local_modules.dseq() =~= modules.dseq().subrange(0, i as int).map_values(
                    |e: (u16, ServerModuleConfigV)| (e.0, e.1.local),
                ));
                assert(private_modules.dseq() =~= modules.dseq().subrange(0, i as int).map_values(
                    |e: (u16, ServerModuleConfigV)| (e.0, e.1.private),
                ));
            }
        }
        proof {
            assert(modules.dseq().subrange(0, modules.dseq().len() as int) =~= modules.dseq());
        }

        let consensus = ServerConfigConsensus {
            code_version: code_version,
            version: core_consensus_version(),
            broadcast_public_keys: broadcast_public_keys,
            broadcast_rounds_per_session: timing.rounds_per_session,
            api_endpoints: params.api_urls(),
            iroh_endpoints: SortedMap::new(),
            tls_certs: params.tls_certs(),
            modules: consensus_modules,
            meta: clone_meta(&params.consensus.meta),
        };

        let local = ServerConfigLocal {
            p2p_endpoints: params.p2p_urls(),
            identity: identity,
            max_connections: DEFAULT_MAX_CLIENT_CONNECTIONS,
            broadcast_round_delay_ms: timing.round_delay_ms,
            modules: local_modules,
        };

        let private = ServerConfigPrivate {
            api_auth: params.local.api_auth.clone(),
            tls_key: Some(hex_encode(&params.local.our_private_key)),
            iroh_api_sk: None,
            iroh_p2p_sk: None,
            broadcast_secret_key: broadcast_secret_key,
            modules: private_modules,
        };

        let r = ServerConfig { consensus, local, private };
        proof {
            reveal(spec_server_config_from);
            let expected = spec_server_config_from(
                params.deep_view(),
                identity,
                broadcast_public_keys.dseq(),
                broadcast_secret_key@,
                modules.dseq(),
                code_version@,
                timing,
            );
            assert(r.consensus.iroh_endpoints.dseq() =~= Seq::<(u16, PeerIrohEndpointsV)>::empty());
        }
        r
    }
}


/// The instance id and kind of each module record.
pub open spec fn spec_module_kinds(s: Seq<(u16, ServerModuleConsensusConfigV)>) -> Seq<
    (u16, Seq<char>),
> {
    s.map_values(|e: (u16, ServerModuleConsensusConfigV)| (e.0, e.1.kind))
}

/// A module instance named by a lookup could not be found.
#[derive(Debug)]
pub enum ModuleLookupError {
    /// No module with this instance id is present in every section.
    NotFound(ModuleInstanceId),
    /// No module of this kind is present.
    KindNotFound,
}

impl ServerConfigConsensus {
    /// The instance id and kind of every module instance, in instance
    /// order.
    pub fn iter_module_instances(&self) -> (r: Vec<(ModuleInstanceId, String)>)
        ensures
            r.deep_view() == spec_module_kinds(self.modules.dseq()),
    {
        let entries = self.modules.entries();
        let mut r: Vec<(ModuleInstanceId, String)> = Vec::new();
        let mut i: usize = 0;
        while i < entries.len()
            invariant
                entries@ == self.modules.entries_seq(),
                0 <= i <= entries@.len(),
                r@.len() == i,
                forall|j: int|
                    0 <= j < i ==> #[trigger] r.deep_view()[j] == (
                        self.modules.dseq()[j].0,
                        self.modules.dseq()[j].1.kind,
                    ),
            decreases entries@.len() - i,
        {
            let kind = entries[i].1.kind.clone();
            let ghost old_deep = r.deep_view();
            r.push((entries[i].0, kind));
            i += 1;
            proof {
                assert(r.deep_view()[i - 1] == (
                    self.modules.dseq()[i - 1].0,
                    self.modules.dseq()[i - 1].1.kind,
                ));
                assert forall|j: int| 0 <= j < i - 1 implies #[trigger] r.deep_view()[j]
                    == old_deep[j] by {}
            }
        }
        proof {
            assert forall|j: int|
                0 <= j < self.modules.dseq().len() implies #[trigger] spec_module_kinds(
                self.modules.dseq(),
            )[j] == r.deep_view()[j] by {}
            assert(r.deep_view() =~= spec_module_kinds(self.modules.dseq()));
        }
        r
    }
}

impl ServerConfig {
    /// The instance id and kind of every module of the consensus section.
    pub fn iter_module_instances(&self) -> (r: Vec<(ModuleInstanceId, String)>)
        ensures
            r.deep_view() == spec_module_kinds(self.consensus.modules.dseq()),
    {
        self.consensus.iter_module_instances()
    }

    /// One module's full configuration: its local, private and consensus
    /// records, which must all be present.
    pub fn get_module_config(&self, id: ModuleInstanceId) -> (r: Result<
        ServerModuleConfig,
        ModuleLookupError,
    >)
        requires
            self.wf(),
        ensures
            r matches Ok(m) ==> {
                &&& seq_lookup(self.local.modules.dseq(), id) == Some(m.deep_view().local)
                &&& seq_lookup(self.private.modules.dseq(), id) == Some(m.deep_view().private)
                &&& seq_lookup(self.consensus.modules.dseq(), id) == Some(m.deep_view().consensus)
            },
            r is Err <==> (seq_lookup(self.local.modules.dseq(), id) is None || seq_lookup(
                self.private.modules.dseq(),
                id,
            ) is None || seq_lookup(self.consensus.modules.dseq(), id) is None),
            r matches Err(e) ==> e == ModuleLookupError::NotFound(id),
    {
        proof {
            self.local.modules.lemma_dget_is_dseq_lookup(id);
            self.private.modules.lemma_dget_is_dseq_lookup(id);
            self.consensus.modules.lemma_dget_is_dseq_lookup(id);
        }
        let local = match self.local.modules.get(id) {
            Some(v) => v.clone(),
            None => {
                return Err(ModuleLookupError::NotFound(id));
            },
        };
        let private = match self.private.modules.get(id) {
            Some(v) => v.clone(),
            None => {
                return Err(ModuleLookupError::NotFound(id));
            },
        };
        let consensus = match self.consensus.modules.get(id) {
            Some(v) => v.clone(),
            None => {
                return Err(ModuleLookupError::NotFound(id));
            },
        };
        Ok(ServerModuleConfig { local, private, consensus })
    }

    /// The instance id of the first module of the given kind.
    pub fn get_module_id_by_kind(&self, kind: &String) -> (r: Result<
        ModuleInstanceId,
        ModuleLookupError,
    >)
        ensures
            r matches Ok(id) ==> exists|j: int|
                0 <= j < self.consensus.modules.dseq().len() && (
                #[trigger] self.consensus.modules.dseq()[j]).0 == id
                    && self.consensus.modules.dseq()[j].1.kind == kind@ && (forall|i: int|
                    0 <= i < j ==> (#[trigger] self.consensus.modules.dseq()[i]).1.kind != kind@),
            r is Err <==> (forall|j: int|
                0 <= j < self.consensus.modules.dseq().len() ==> (
                #[trigger] self.consensus.modules.dseq()[j]).1.kind != kind@),
            r matches Err(e) ==> e == ModuleLookupError::KindNotFound,
    {
        let entries = self.consensus.modules.entries();
        let mut i: usize = 0;
        while i < entries.len()
            invariant
                entries@ == self.consensus.modules.entries_seq(),
                0 <= i <= entries@.len(),
                forall|j: int|
                    0 <= j < i ==> (#[trigger] self.consensus.modules.dseq()[j]).1.kind != kind@,
            decreases entries@.len() - i,
        {
            if entries[i].1.kind.eq(kind) {
                proof {
                    assert(self.consensus.modules.dseq()[i as int].1.kind == kind@);
                }
                return Ok(entries[i].0);
            }
            proof {
                assert(self.consensus.modules.dseq()[i as int].1.kind != kind@);
            }
            i += 1;
        }
        Err(ModuleLookupError::KindNotFound)
    }
}

/// An invitation for a client: this peer's API endpoint, its id, the
/// federation's identity and an optional API secret.
pub struct InviteCode {
    pub url: String,
    pub peer_id: PeerId,
    pub federation_id: crate::hashing::FederationId,
    pub api_secret: Option<String>,
}

impl ServerConfig {
    /// The invite code pointing a client at this peer.
    pub fn get_invite_code(&self, api_secret: Option<String>) -> (r: InviteCode)
        requires
            self.wf(),
            seq_lookup(self.consensus.api_endpoints.dseq(), self.local.identity.0) is Some,
        ensures
            r.url@ == seq_lookup(
                self.consensus.api_endpoints.dseq(),
                self.local.identity.0,
            ).unwrap().url,
            r.peer_id == self.local.identity,
            r.federation_id.id@ == crate::hashing::spec_federation_id(
                self.consensus.api_endpoints.dseq(),
            ),
            r.api_secret.deep_view() == api_secret.deep_view(),
    {
        proof {
            self.consensus.api_endpoints.lemma_dget_is_dseq_lookup(self.local.identity.0);
        }
        let url = match self.consensus.api_endpoints.get(self.local.identity.0) {
            Some(u) => u.url.clone(),
            None => vstd::pervasive::unreached(),
        };
        InviteCode {
            url,
            peer_id: self.local.identity,
            federation_id: self.calculate_federation_id(),
            api_secret: match api_secret {
                Some(s) => Some(s),
                None => None,
            },
        }
    }
}


/// Consensus identity of the assembly projection: two configurations
/// assembled from parameter sets with equal consensus sections, the same
/// exchanged broadcast key table, the same code version and round timing,
/// and module configurations with equal consensus parts carry equal
/// consensus sections — whatever each peer's identity, secret key and local
/// parameters are.
pub proof fn lemma_assembled_consensus_identity(
    p1: ConfigGenParamsV,
    p2: ConfigGenParamsV,
    id1: PeerId,
    id2: PeerId,
    bpks: Seq<(u16, Seq<u8>)>,
    sk1: Seq<u8>,
    sk2: Seq<u8>,
    mods1: Seq<(u16, ServerModuleConfigV)>,
    mods2: Seq<(u16, ServerModuleConfigV)>,
    cv: Seq<char>,
    timing: BroadcastSettings,
)
    requires
        p1.consensus == p2.consensus,
        mods1.map_values(|e: (u16, ServerModuleConfigV)| (e.0, e.1.consensus)) == mods2.map_values(
            |e: (u16, ServerModuleConfigV)| (e.0, e.1.consensus),
        ),
    ensures
        spec_server_config_from(p1, id1, bpks, sk1, mods1, cv, timing).consensus
            == spec_server_config_from(p2, id2, bpks, sk2, mods2, cv, timing).consensus,
{
    reveal(spec_server_config_from);
    let c1 = spec_server_config_from(p1, id1, bpks, sk1, mods1, cv, timing).consensus;
    let c2 = spec_server_config_from(p2, id2, bpks, sk2, mods2, cv, timing).consensus;
    assert(mods1.len() == mods2.len()) by {
        assert(mods1.map_values(
            |e: (u16, ServerModuleConfigV)| (e.0, e.1.consensus),
        ).len() == mods1.len());
        assert(mods2.map_values(
            |e: (u16, ServerModuleConfigV)| (e.0, e.1.consensus),
        ).len() == mods2.len());
    }
    assert forall|i: int| 0 <= i < mods1.len() implies c1.modules[i] == c2.modules[i] by {
        let f = |e: (u16, ServerModuleConfigV)| (e.0, e.1.consensus);
        assert(mods1.map_values(f)[i] == (mods1[i].0, mods1[i].1.consensus));
        assert(mods2.map_values(f)[i] == (mods2[i].0, mods2[i].1.consensus));
        assert(c1.modules[i] == (mods1[i].0, mods1[i].1.consensus));
        assert(c2.modules[i] == (mods2[i].0, mods2[i].1.consensus));
    }
    assert(c1.modules =~= c2.modules);
}


/// The material a TLS endpoint is configured with: our private key, every
/// peer's pinned certificate, and every peer's name.
pub struct TlsConfig {
    /// Our TLS private key, DER bytes.
    pub private_key: Vec<u8>,
    /// Every peer's certificate, DER bytes, keyed by peer id.
    pub certificates: SortedMap<Vec<u8>>,
    /// Every peer's name, keyed by peer id.
    pub peer_names: SortedMap<String>,
}

/// Each peer's certificate bytes, as the hex-encoded table decodes.
pub open spec fn spec_decoded_certs(s: Seq<(u16, Seq<char>)>) -> Seq<(u16, Seq<u8>)> {
    s.map_values(|e: (u16, Seq<char>)| (e.0, spec_hex_decode(e.1).unwrap()))
}

/// Each peer's name, from an endpoint table.
pub open spec fn spec_endpoint_names(s: Seq<(u16, PeerUrlV)>) -> Seq<(u16, Seq<char>)> {
    s.map_values(|e: (u16, PeerUrlV)| (e.0, e.1.name))
}

/// Each peer's certificate bytes, from the announced peer information.
pub open spec fn spec_peer_certs(s: Seq<(u16, PeerConnectionInfoV)>) -> Seq<(u16, Seq<u8>)> {
    s.map_values(|e: (u16, PeerConnectionInfoV)| (e.0, e.1.cert))
}

/// Each peer's name, from the announced peer information.
pub open spec fn spec_peer_names(s: Seq<(u16, PeerConnectionInfoV)>) -> Seq<(u16, Seq<char>)> {
    s.map_values(|e: (u16, PeerConnectionInfoV)| (e.0, e.1.name))
}

impl ServerConfig {
    /// The TLS material of a generated configuration: the stored key and
    /// certificates, hex-decoded, and the peer names of the local endpoint
    /// table. The stored strings must decode, as they do in every
    /// configuration the generation paths produce.
    pub fn tls_config(&self) -> (r: TlsConfig)
        requires
            self.wf(),
            self.private.tls_key matches Some(k) && spec_hex_decode(k@) is Some,
            forall|j: int|
                0 <= j < self.consensus.tls_certs.dseq().len() ==> spec_hex_decode(
                    (#[trigger] self.consensus.tls_certs.dseq()[j]).1,
                ) is Some,
        ensures
            r.private_key@ == spec_hex_decode(self.private.tls_key.unwrap()@).unwrap(),
            r.certificates.wf(),
            r.certificates.dseq() == spec_decoded_certs(self.consensus.tls_certs.dseq()),
            r.peer_names.wf(),
            r.peer_names.dseq() == spec_endpoint_names(self.local.p2p_endpoints.dseq()),
    {
        let key_hex = match &self.private.tls_key {
            Some(k) => k,
            None => vstd::pervasive::unreached(),
        };
        let private_key = match crate::codec::hex_decode(key_hex.as_str()) {
            Some(b) => b,
            None => vstd::pervasive::unreached(),
        };

        let mut certificates: SortedMap<Vec<u8>> = SortedMap::new();
        let centries = self.consensus.tls_certs.entries();
        let mut i: usize = 0;
        while i < centries.len()
            invariant
                self.wf(),
                centries@ == self.consensus.tls_certs.entries_seq(),
                forall|j: int|
                    0 <= j < self.consensus.tls_certs.dseq().len() ==> spec_hex_decode(
                        (#[trigger] self.consensus.tls_certs.dseq()[j]).1,
                    ) is Some,
                0 <= i <= centries@.len(),
                certificates.wf(),
                certificates.entries_seq().len() == i,
                forall|j: int|
                    0 <= j < i ==> (#[trigger] certificates.entries_seq()[j]).0 == centries@[j].0,
                certificates.dseq() =~= spec_decoded_certs(
                    self.consensus.tls_certs.dseq().subrange(0, i as int),
                ),
            decreases centries@.len() - i,
        {
            let k = centries[i].0;
            proof {
                assert(self.consensus.tls_certs.dseq()[i as int] == (k, centries@[i as int].1@));
            }
            let cert = match crate::codec::hex_decode(centries[i].1.as_str()) {
                Some(b) => b,
                None => vstd::pervasive::unreached(),
            };
            proof {
                assert forall|j: int|
                    0 <= j < certificates.spec_len() implies (
                #[trigger] certificates.entries_seq()[j]).0 < k by {
                    assert(centries@[j].0 < centries@[i as int].0);
                }
                assert(cert.deep_view() =~= cert@);
            }
            certificates.push_back(k, cert);
            i += 1;
            proof {
                assert(certificates.dseq() =~= spec_decoded_certs(
                    self.consensus.tls_certs.dseq().subrange(0, i as int),
                ));
            }
        }
        proof {
            assert(self.consensus.tls_certs.dseq().subrange(
                0,
                self.consensus.tls_certs.dseq().len() as int,
            ) =~= self.consensus.tls_certs.dseq());
        }

        let mut peer_names: SortedMap<String> = SortedMap::new();
        let pentries = self.local.p2p_endpoints.entries();
        let mut i2: usize = 0;
        while i2 < pentries.len()
            invariant
                self.wf(),
                pentries@ == self.local.p2p_endpoints.entries_seq(),
                0 <= i2 <= pentries@.len(),
                peer_names.wf(),
                peer_names.entries_seq().len() == i2,
                forall|j: int|
                    0 <= j < i2 ==> (#[trigger] peer_names.entries_seq()[j]).0 == pentries@[j].0,
                peer_names.dseq() =~= spec_endpoint_names(
                    self.local.p2p_endpoints.dseq().subrange(0, i2 as int),
                ),
            decreases pentries@.len() - i2,
        {
            let k = pentries[i2].0;
            proof {
                assert forall|j: int|
                    0 <= j < peer_names.spec_len() implies (
                #[trigger] peer_names.entries_seq()[j]).0 < k by {
                    assert(pentries@[j].0 < pentries@[i2 as int].0);
                }
            }
            peer_names.push_back(k, pentries[i2].1.name.clone());
            i2 += 1;
            proof {
                assert(peer_names.dseq() =~= spec_endpoint_names(
                    self.local.p2p_endpoints.dseq().subrange(0, i2 as int),
                ));
            }
        }
        proof {
            assert(self.local.p2p_endpoints.dseq().subrange(
                0,
                self.local.p2p_endpoints.dseq().len() as int,
            ) =~= self.local.p2p_endpoints.dseq());
        }

        TlsConfig { private_key, certificates, peer_names }
    }
}

impl ConfigGenParams {
    /// The TLS material for the generation run itself: our own private key
    /// and every announced certificate and name.
    pub fn tls_config(&self) -> (r: TlsConfig)
        requires
            self.wf(),
        ensures
            r.private_key@ == self.local.our_private_key@,
            r.certificates.wf(),
            r.certificates.dseq() == spec_peer_certs(self.consensus.peers.dseq()),
            r.peer_names.wf(),
            r.peer_names.dseq() == spec_peer_names(self.consensus.peers.dseq()),
    {
        let private_key = clone_bytes(&self.local.our_private_key);
        let mut certificates: SortedMap<Vec<u8>> = SortedMap::new();
        let mut peer_names: SortedMap<String> = SortedMap::new();
        let entries = self.consensus.peers.entries();
        let mut i: usize = 0;
        while i < entries.len()
            invariant
                self.wf(),
                entries@ == self.consensus.peers.entries_seq(),
                0 <= i <= entries@.len(),
                certificates.wf(),
                peer_names.wf(),
                certificates.entries_seq().len() == i,
                peer_names.entries_seq().len() == i,
                forall|j: int|
                    0 <= j < i ==> (#[trigger] certificates.entries_seq()[j]).0 == entries@[j].0,
                forall|j: int|
                    0 <= j < i ==> (#[trigger] peer_names.entries_seq()[j]).0 == entries@[j].0,
                certificates.dseq() =~= spec_peer_certs(
                    self.consensus.peers.dseq().subrange(0, i as int),
                ),
                peer_names.dseq() =~= spec_peer_names(
                    self.consensus.peers.dseq().subrange(0, i as int),
                ),
            decreases entries@.len() - i,
        {
            let k = entries[i].0;
            proof {
                assert forall|j: int|
                    0 <= j < certificates.spec_len() implies (
                #[trigger] certificates.entries_seq()[j]).0 < k by {
                    assert(entries@[j].0 < entries@[i as int].0);
                }
                assert forall|j: int|
                    0 <= j < peer_names.spec_len() implies (
                #[trigger] peer_names.entries_seq()[j]).0 < k by {
                    assert(entries@[j].0 < entries@[i as int].0);
                }
            }
            let cert = clone_bytes(&entries[i].1.cert);
            proof {
                assert(cert.deep_view() =~= cert@);
            }
            certificates.push_back(k, cert);
            peer_names.push_back(k, entries[i].1.name.clone());
            i += 1;
            proof {
                assert(certificates.dseq() =~= spec_peer_certs(
                    self.consensus.peers.dseq().subrange(0, i as int),
                ));
                assert(peer_names.dseq() =~= spec_peer_names(
                    self.consensus.peers.dseq().subrange(0, i as int),
                ));
            }
        }
        proof {
            assert(self.consensus.peers.dseq().subrange(
                0,
                self.consensus.peers.dseq().len() as int,
            ) =~= self.consensus.peers.dseq());
        }
        TlsConfig { private_key, certificates, peer_names }
    }
}

} // verus!
