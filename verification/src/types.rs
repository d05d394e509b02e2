//! The configuration data model.
//!
//! All values are held as plain data — integers, strings, byte vectors and
//! ordered maps — so that every field a contract speaks of is visible to the
//! verifier. Each type has a deep view over which the contracts are stated.

use vstd::prelude::*;

use crate::sorted_map::SortedMap;

verus! {

/// Identifies one instantiated module of the federation.
pub type ModuleInstanceId = u16;

/// Copy the bytes of a vector; the result holds the same byte string.
pub fn clone_bytes(v: &Vec<u8>) -> (r: Vec<u8>)
    ensures
        r@ == v@,
{
    let mut r: Vec<u8> = Vec::new();
    let mut i: usize = 0;
    while i < v.len()
        invariant
            0 <= i <= v@.len(),
            r@ == v@.subrange(0, i as int),
        decreases v@.len() - i,
    {
        r.push(v[i]);
        i += 1;
        proof {
            assert(r@ =~= v@.subrange(0, i as int));
        }
    }
    proof {
        assert(r@ =~= v@);
    }
    r
}

/// Whether two byte strings hold the same bytes.
pub fn bytes_eq(a: &Vec<u8>, b: &Vec<u8>) -> (r: bool)
    ensures
        r == (a@ == b@),
{
    if a.len() != b.len() {
        return false;
    }
    let mut i: usize = 0;
    while i < a.len()
        invariant
            a@.len() == b@.len(),
            0 <= i <= a@.len(),
            forall|j: int| 0 <= j < i ==> a@[j] == b@[j],
        decreases a@.len() - i,
    {
        if a[i] != b[i] {
            return false;
        }
        i += 1;
    }
    proof {
        assert(a@ =~= b@);
    }
    true
}

/// Copy a table of byte strings; the result stores the same bytes under the
/// same keys.
pub fn clone_bytes_map(m: &SortedMap<Vec<u8>>) -> (r: SortedMap<Vec<u8>>)
    requires
        m.wf(),
    ensures
        r.wf(),
        r.dseq() == m.dseq(),
{
    let entries = m.entries();
    let mut r: SortedMap<Vec<u8>> = SortedMap::new();
    let mut i: usize = 0;
    while i < entries.len()
        invariant
            m.wf(),
            entries@ == m.entries_seq(),
            0 <= i <= entries@.len(),
            r.wf(),
            r.entries_seq().len() == i,
            forall|j: int| 0 <= j < i ==> (#[trigger] r.entries_seq()[j]).0 == entries@[j].0,
            r.dseq() =~= m.dseq().subrange(0, i as int),
        decreases entries@.len() - i,
    {
        let k = entries[i].0;
        let v = clone_bytes(&entries[i].1);
        proof {
            assert forall|j: int|
                0 <= j < r.spec_len() implies (#[trigger] r.entries_seq()[j]).0 < k by {
                assert(entries@[j].0 < entries@[i as int].0);
            }
            assert(v.deep_view() =~= entries@[i as int].1.deep_view());
        }
        r.push_back(k, v);
        i += 1;
        proof {
            assert(r.dseq() =~= m.dseq().subrange(0, i as int));
        }
    }
    proof {
        assert(m.dseq().subrange(0, m.dseq().len() as int) =~= m.dseq());
    }
    r
}

/// A peer's display name together with one of its URLs.
pub struct PeerUrl {
    /// Name of the peer, used in TLS authentication.
    pub name: String,
    /// The peer's URL.
    pub url: String,
}

pub struct PeerUrlV {
    pub name: Seq<char>,
    pub url: Seq<char>,
}

impl DeepView for PeerUrl {
    type V = PeerUrlV;

    open spec fn deep_view(&self) -> PeerUrlV {
        PeerUrlV { name: self.name@, url: self.url@ }
    }
}

impl Clone for PeerUrl {
    fn clone(&self) -> (r: Self)
        ensures
            r.deep_view() == self.deep_view(),
    {
        PeerUrl { name: self.name.clone(), url: self.url.clone() }
    }
}

/// Connection information one peer announces before config generation.
pub struct PeerConnectionInfo {
    /// TLS certificate, DER bytes, for P2P authentication.
    pub cert: Vec<u8>,
    /// URL of the peer-to-peer endpoint.
    pub p2p_url: String,
    /// URL of the API endpoint.
    pub api_url: String,
    /// Name of the peer, used in TLS authentication.
    pub name: String,
    /// Federation name, set by the leading peer only.
    pub federation_name: Option<String>,
}

pub struct PeerConnectionInfoV {
    pub cert: Seq<u8>,
    pub p2p_url: Seq<char>,
    pub api_url: Seq<char>,
    pub name: Seq<char>,
    pub federation_name: Option<Seq<char>>,
}

impl DeepView for PeerConnectionInfo {
    type V = PeerConnectionInfoV;

    open spec fn deep_view(&self) -> PeerConnectionInfoV {
        PeerConnectionInfoV {
            cert: self.cert@,
            p2p_url: self.p2p_url@,
            api_url: self.api_url@,
            name: self.name@,
            federation_name: match self.federation_name {
                Some(ref n) => Some(n@),
                None => None,
            },
        }
    }
}

impl Clone for PeerConnectionInfo {
    fn clone(&self) -> (r: Self)
        ensures
            r.deep_view() == self.deep_view(),
    {
        PeerConnectionInfo {
            cert: clone_bytes(&self.cert),
            p2p_url: self.p2p_url.clone(),
            api_url: self.api_url.clone(),
            name: self.name.clone(),
            federation_name: match self.federation_name {
                Some(ref n) => Some(n.clone()),
                None => None,
            },
        }
    }
}

/// A module's non-consensus configuration record: its kind tag and an opaque
/// payload that only the module itself interprets.
pub struct ModuleRawConfig {
    pub kind: String,
    pub value: Vec<u8>,
}

pub struct ModuleRawConfigV {
    pub kind: Seq<char>,
    pub value: Seq<u8>,
}

impl DeepView for ModuleRawConfig {
    type V = ModuleRawConfigV;

    open spec fn deep_view(&self) -> ModuleRawConfigV {
        ModuleRawConfigV { kind: self.kind@, value: self.value@ }
    }
}

impl Clone for ModuleRawConfig {
    fn clone(&self) -> (r: Self)
        ensures
            r.deep_view() == self.deep_view(),
    {
        ModuleRawConfig { kind: self.kind.clone(), value: clone_bytes(&self.value) }
    }
}

/// A module's consensus configuration: required to be identical on every
/// peer, like everything else in the consensus section.
pub struct ServerModuleConsensusConfig {
    pub kind: String,
    pub config: Vec<u8>,
}

pub struct ServerModuleConsensusConfigV {
    pub kind: Seq<char>,
    pub config: Seq<u8>,
}

impl DeepView for ServerModuleConsensusConfig {
    type V = ServerModuleConsensusConfigV;

    open spec fn deep_view(&self) -> ServerModuleConsensusConfigV {
        ServerModuleConsensusConfigV { kind: self.kind@, config: self.config@ }
    }
}

impl Clone for ServerModuleConsensusConfig {
    fn clone(&self) -> (r: Self)
        ensures
            r.deep_view() == self.deep_view(),
    {
        ServerModuleConsensusConfig { kind: self.kind.clone(), config: clone_bytes(&self.config) }
    }
}

/// One module's full configuration for one peer.
pub struct ServerModuleConfig {
    pub local: ModuleRawConfig,
    pub private: ModuleRawConfig,
    pub consensus: ServerModuleConsensusConfig,
}

pub struct ServerModuleConfigV {
    pub local: ModuleRawConfigV,
    pub private: ModuleRawConfigV,
    pub consensus: ServerModuleConsensusConfigV,
}

impl DeepView for ServerModuleConfig {
    type V = ServerModuleConfigV;

    open spec fn deep_view(&self) -> ServerModuleConfigV {
        ServerModuleConfigV {
            local: self.local.deep_view(),
            private: self.private.deep_view(),
            consensus: self.consensus.deep_view(),
        }
    }
}

impl Clone for ServerModuleConfig {
    fn clone(&self) -> (r: Self)
        ensures
            r.deep_view() == self.deep_view(),
    {
        ServerModuleConfig {
            local: self.local.clone(),
            private: self.private.clone(),
            consensus: self.consensus.clone(),
        }
    }
}

/// Public keys of a peer's optional alternate-transport endpoints.
pub struct PeerIrohEndpoints {
    /// The peer's name.
    pub name: String,
    /// Public key of the alternate API endpoint.
    pub api_pk: Vec<u8>,
    /// Public key of the alternate P2P endpoint.
    pub p2p_pk: Vec<u8>,
}

pub struct PeerIrohEndpointsV {
    pub name: Seq<char>,
    pub api_pk: Seq<u8>,
    pub p2p_pk: Seq<u8>,
}

impl DeepView for PeerIrohEndpoints {
    type V = PeerIrohEndpointsV;

    open spec fn deep_view(&self) -> PeerIrohEndpointsV {
        PeerIrohEndpointsV { name: self.name@, api_pk: self.api_pk@, p2p_pk: self.p2p_pk@ }
    }
}

/// Agreed-on version of the core consensus protocol.
#[derive(Clone, Copy, Debug, PartialEq, Eq, Structural)]
pub struct CoreConsensusVersion {
    pub major: u32,
    pub minor: u32,
}

impl DeepView for CoreConsensusVersion {
    type V = CoreConsensusVersion;

    open spec fn deep_view(&self) -> CoreConsensusVersion {
        *self
    }
}

pub open spec fn spec_core_consensus_version() -> CoreConsensusVersion {
    CoreConsensusVersion { major: 2, minor: 0 }
}

/// The core consensus version this code speaks.
pub fn core_consensus_version() -> (r: CoreConsensusVersion)
    ensures
        r == spec_core_consensus_version(),
{
    CoreConsensusVersion { major: 2, minor: 0 }
}

} // verus!
