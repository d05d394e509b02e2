//! Hashing of configuration data.
//!
//! The federation identity is the SHA-256 digest of the canonical encoding
//! of the consensus API endpoint table; the checksum barriers hash the peer
//! table and the assembled consensus section; the legacy hash covers the
//! fixed historical subset of the consensus fields, so that adding a new
//! optional field never changes it for configs that do not use the field.

use vstd::prelude::*;

use crate::config::{ServerConfig, ServerConfigConsensus, ServerConfigConsensusV};
use crate::crypto::{sha256_digest, sha256_of};
use crate::encoding::{
    push_bytes, push_opt_str, push_str, push_u16, push_u32, push_u64, spec_enc_bytes,
    spec_enc_opt_str, spec_enc_str, spec_u16_be, spec_u32_be, spec_u64_be,
};
use crate::sorted_map::SortedMap;
use crate::types::{
    CoreConsensusVersion, PeerConnectionInfo, PeerConnectionInfoV, PeerIrohEndpoints,
    PeerIrohEndpointsV, PeerUrl, PeerUrlV, ServerModuleConsensusConfig,
    ServerModuleConsensusConfigV,
};

verus! {

/// All the byte strings of a sequence, one after the other.
pub open spec fn spec_concat(s: Seq<Seq<u8>>) -> Seq<u8>
    decreases s.len(),
{
    if s.len() == 0 {
        Seq::empty()
    } else {
        s[0] + spec_concat(s.drop_first())
    }
}

pub proof fn lemma_concat_push(s: Seq<Seq<u8>>, x: Seq<u8>)
    ensures
        spec_concat(s.push(x)) == spec_concat(s) + x,
    decreases s.len(),
{
    if s.len() == 0 {
        assert(s.push(x)[0] == x);
        assert(s.push(x).drop_first() =~= Seq::<Seq<u8>>::empty());
        assert(spec_concat(Seq::<Seq<u8>>::empty()) == Seq::<u8>::empty());
        assert(spec_concat(s.push(x)) == x + Seq::<u8>::empty());
        assert(spec_concat(s) == Seq::<u8>::empty());
        assert(spec_concat(s.push(x)) =~= spec_concat(s) + x);
    } else {
        assert(s.push(x)[0] == s[0]);
        assert(s.push(x).drop_first() =~= s.drop_first().push(x));
        lemma_concat_push(s.drop_first(), x);
        assert(spec_concat(s.push(x)) =~= spec_concat(s) + x);
    }
}

// --- entry encodings, and the encodings of a whole entry sequence ---

pub open spec fn spec_enc_url_entry(e: (u16, PeerUrlV)) -> Seq<u8> {
    spec_u16_be(e.0) + spec_enc_str(e.1.name) + spec_enc_str(e.1.url)
}

pub open spec fn spec_url_entry_encs(s: Seq<(u16, PeerUrlV)>) -> Seq<Seq<u8>> {
    s.map_values(|e: (u16, PeerUrlV)| spec_enc_url_entry(e))
}

pub open spec fn spec_enc_bytes_entry(e: (u16, Seq<u8>)) -> Seq<u8> {
    spec_u16_be(e.0) + spec_enc_bytes(e.1)
}

pub open spec fn spec_bytes_entry_encs(s: Seq<(u16, Seq<u8>)>) -> Seq<Seq<u8>> {
    s.map_values(|e: (u16, Seq<u8>)| spec_enc_bytes_entry(e))
}

pub open spec fn spec_enc_cert_entry(e: (u16, Seq<char>)) -> Seq<u8> {
    spec_u16_be(e.0) + spec_enc_str(e.1)
}

pub open spec fn spec_cert_entry_encs(s: Seq<(u16, Seq<char>)>) -> Seq<Seq<u8>> {
    s.map_values(|e: (u16, Seq<char>)| spec_enc_cert_entry(e))
}

pub open spec fn spec_enc_iroh_entry(e: (u16, PeerIrohEndpointsV)) -> Seq<u8> {
    spec_u16_be(e.0) + spec_enc_str(e.1.name) + spec_enc_bytes(e.1.api_pk) + spec_enc_bytes(
        e.1.p2p_pk,
    )
}

pub open spec fn spec_iroh_entry_encs(s: Seq<(u16, PeerIrohEndpointsV)>) -> Seq<Seq<u8>> {
    s.map_values(|e: (u16, PeerIrohEndpointsV)| spec_enc_iroh_entry(e))
}

pub open spec fn spec_enc_module_entry(e: (u16, ServerModuleConsensusConfigV)) -> Seq<u8> {
    spec_u16_be(e.0) + spec_enc_str(e.1.kind) + spec_enc_bytes(e.1.config)
}

pub open spec fn spec_module_entry_encs(
    s: Seq<(u16, ServerModuleConsensusConfigV)>,
) -> Seq<Seq<u8>> {
    s.map_values(|e: (u16, ServerModuleConsensusConfigV)| spec_enc_module_entry(e))
}

pub open spec fn spec_enc_meta_entry(e: (Seq<char>, Seq<char>)) -> Seq<u8> {
    spec_enc_str(e.0) + spec_enc_str(e.1)
}

pub open spec fn spec_meta_entry_encs(s: Seq<(Seq<char>, Seq<char>)>) -> Seq<Seq<u8>> {
    s.map_values(|e: (Seq<char>, Seq<char>)| spec_enc_meta_entry(e))
}

pub open spec fn spec_enc_peer_entry(e: (u16, PeerConnectionInfoV)) -> Seq<u8> {
    spec_u16_be(e.0) + spec_enc_bytes(e.1.cert) + spec_enc_str(e.1.p2p_url) + spec_enc_str(
        e.1.api_url,
    ) + spec_enc_str(e.1.name) + spec_enc_opt_str(e.1.federation_name)
}

pub open spec fn spec_peer_entry_encs(s: Seq<(u16, PeerConnectionInfoV)>) -> Seq<Seq<u8>> {
    s.map_values(|e: (u16, PeerConnectionInfoV)| spec_enc_peer_entry(e))
}

// --- table encodings: entry count, then the entries in key order ---

pub open spec fn spec_enc_url_table(s: Seq<(u16, PeerUrlV)>) -> Seq<u8> {
    spec_u64_be(s.len() as u64) + spec_concat(spec_url_entry_encs(s))
}

pub open spec fn spec_enc_bytes_table(s: Seq<(u16, Seq<u8>)>) -> Seq<u8> {
    spec_u64_be(s.len() as u64) + spec_concat(spec_bytes_entry_encs(s))
}

pub open spec fn spec_enc_cert_table(s: Seq<(u16, Seq<char>)>) -> Seq<u8> {
    spec_u64_be(s.len() as u64) + spec_concat(spec_cert_entry_encs(s))
}

pub open spec fn spec_enc_iroh_table(s: Seq<(u16, PeerIrohEndpointsV)>) -> Seq<u8> {
    spec_u64_be(s.len() as u64) + spec_concat(spec_iroh_entry_encs(s))
}

pub open spec fn spec_enc_module_table(s: Seq<(u16, ServerModuleConsensusConfigV)>) -> Seq<u8> {
    spec_u64_be(s.len() as u64) + spec_concat(spec_module_entry_encs(s))
}

pub open spec fn spec_enc_meta_table(s: Seq<(Seq<char>, Seq<char>)>) -> Seq<u8> {
    spec_u64_be(s.len() as u64) + spec_concat(spec_meta_entry_encs(s))
}

pub open spec fn spec_enc_peer_table(s: Seq<(u16, PeerConnectionInfoV)>) -> Seq<u8> {
    spec_u64_be(s.len() as u64) + spec_concat(spec_peer_entry_encs(s))
}

// --- exec encoders ---

pub fn enc_url_table(out: &mut Vec<u8>, m: &SortedMap<PeerUrl>)
    ensures
        final(out)@ == old(out)@ + spec_enc_url_table(m.dseq()),
{
    let ghost encs = spec_url_entry_encs(m.dseq());
    let entries = m.entries();
    push_u64(out, entries.len() as u64);
    let ghost base = out@;
    let mut i: usize = 0;
    while i < entries.len()
        invariant
            entries@ == m.entries_seq(),
            0 <= i <= entries@.len(),
            encs == spec_url_entry_encs(m.dseq()),
            out@ == base + spec_concat(encs.subrange(0, i as int)),
        decreases entries@.len() - i,
    {
        push_u16(out, entries[i].0);
        push_str(out, entries[i].1.name.as_str());
        push_str(out, entries[i].1.url.as_str());
        i += 1;
        proof {
            assert(encs[i - 1] == spec_enc_url_entry(m.dseq()[i - 1]));
            assert(encs.subrange(0, i as int) =~= encs.subrange(0, i - 1).push(encs[i - 1]));
            lemma_concat_push(encs.subrange(0, i - 1), encs[i - 1]);
            assert(out@ =~= base + spec_concat(encs.subrange(0, i as int)));
        }
    }
    proof {
        assert(encs.subrange(0, encs.len() as int) =~= encs);
        assert(final(out)@ =~= old(out)@ + spec_enc_url_table(m.dseq()));
    }
}

pub fn enc_bytes_table(out: &mut Vec<u8>, m: &SortedMap<Vec<u8>>)
    ensures
        final(out)@ == old(out)@ + spec_enc_bytes_table(m.dseq()),
{
    let ghost encs = spec_bytes_entry_encs(m.dseq());
    let entries = m.entries();
    push_u64(out, entries.len() as u64);
    let ghost base = out@;
    let mut i: usize = 0;
    while i < entries.len()
        invariant
            entries@ == m.entries_seq(),
            0 <= i <= entries@.len(),
            encs == spec_bytes_entry_encs(m.dseq()),
            out@ == base + spec_concat(encs.subrange(0, i as int)),
        decreases entries@.len() - i,
    {
        push_u16(out, entries[i].0);
        push_bytes(out, &entries[i].1);
        i += 1;
        proof {
            assert(entries@[i - 1].1.deep_view() =~= entries@[i - 1].1@);
            assert(encs[i - 1] == spec_enc_bytes_entry(m.dseq()[i - 1]));
            assert(encs.subrange(0, i as int) =~= encs.subrange(0, i - 1).push(encs[i - 1]));
            lemma_concat_push(encs.subrange(0, i - 1), encs[i - 1]);
            assert(out@ =~= base + spec_concat(encs.subrange(0, i as int)));
        }
    }
    proof {
        assert(encs.subrange(0, encs.len() as int) =~= encs);
        assert(final(out)@ =~= old(out)@ + spec_enc_bytes_table(m.dseq()));
    }
}

pub fn enc_cert_table(out: &mut Vec<u8>, m: &SortedMap<String>)
    ensures
        final(out)@ == old(out)@ + spec_enc_cert_table(m.dseq()),
{
    let ghost encs = spec_cert_entry_encs(m.dseq());
    let entries = m.entries();
    push_u64(out, entries.len() as u64);
    let ghost base = out@;
    let mut i: usize = 0;
    while i < entries.len()
        invariant
            entries@ == m.entries_seq(),
            0 <= i <= entries@.len(),
            encs == spec_cert_entry_encs(m.dseq()),
            out@ == base + spec_concat(encs.subrange(0, i as int)),
        decreases entries@.len() - i,
    {
        push_u16(out, entries[i].0);
        push_str(out, entries[i].1.as_str());
        i += 1;
        proof {
            assert(encs[i - 1] == spec_enc_cert_entry(m.dseq()[i - 1]));
            assert(encs.subrange(0, i as int) =~= encs.subrange(0, i - 1).push(encs[i - 1]));
            lemma_concat_push(encs.subrange(0, i - 1), encs[i - 1]);
            assert(out@ =~= base + spec_concat(encs.subrange(0, i as int)));
        }
    }
    proof {
        assert(encs.subrange(0, encs.len() as int) =~= encs);
        assert(final(out)@ =~= old(out)@ + spec_enc_cert_table(m.dseq()));
    }
}

pub fn enc_iroh_table(out: &mut Vec<u8>, m: &SortedMap<PeerIrohEndpoints>)
    ensures
        final(out)@ == old(out)@ + spec_enc_iroh_table(m.dseq()),
{
    let ghost encs = spec_iroh_entry_encs(m.dseq());
    let entries = m.entries();
    push_u64(out, entries.len() as u64);
    let ghost base = out@;
    let mut i: usize = 0;
    while i < entries.len()
        invariant
            entries@ == m.entries_seq(),
            0 <= i <= entries@.len(),
            encs == spec_iroh_entry_encs(m.dseq()),
            out@ == base + spec_concat(encs.subrange(0, i as int)),
        decreases entries@.len() - i,
    {
        push_u16(out, entries[i].0);
        push_str(out, entries[i].1.name.as_str());
        push_bytes(out, &entries[i].1.api_pk);
        push_bytes(out, &entries[i].1.p2p_pk);
        i += 1;
        proof {
            assert(encs[i - 1] == spec_enc_iroh_entry(m.dseq()[i - 1]));
            assert(encs.subrange(0, i as int) =~= encs.subrange(0, i - 1).push(encs[i - 1]));
            lemma_concat_push(encs.subrange(0, i - 1), encs[i - 1]);
            assert(out@ =~= base + spec_concat(encs.subrange(0, i as int)));
        }
    }
    proof {
        assert(encs.subrange(0, encs.len() as int) =~= encs);
        assert(final(out)@ =~= old(out)@ + spec_enc_iroh_table(m.dseq()));
    }
}

pub fn enc_module_table(out: &mut Vec<u8>, m: &SortedMap<ServerModuleConsensusConfig>)
    ensures
        final(out)@ == old(out)@ + spec_enc_module_table(m.dseq()),
{
    let ghost encs = spec_module_entry_encs(m.dseq());
    let entries = m.entries();
    push_u64(out, entries.len() as u64);
    let ghost base = out@;
    let mut i: usize = 0;
    while i < entries.len()
        invariant
            entries@ == m.entries_seq(),
            0 <= i <= entries@.len(),
            encs == spec_module_entry_encs(m.dseq()),
            out@ == base + spec_concat(encs.subrange(0, i as int)),
        decreases entries@.len() - i,
    {
        push_u16(out, entries[i].0);
        push_str(out, entries[i].1.kind.as_str());
        push_bytes(out, &entries[i].1.config);
        i += 1;
        proof {
            assert(encs[i - 1] == spec_enc_module_entry(m.dseq()[i - 1]));
            assert(encs.subrange(0, i as int) =~= encs.subrange(0, i - 1).push(encs[i - 1]));
            lemma_concat_push(encs.subrange(0, i - 1), encs[i - 1]);
            assert(out@ =~= base + spec_concat(encs.subrange(0, i as int)));
        }
    }
    proof {
        assert(encs.subrange(0, encs.len() as int) =~= encs);
        assert(final(out)@ =~= old(out)@ + spec_enc_module_table(m.dseq()));
    }
}

pub fn enc_meta_table(out: &mut Vec<u8>, m: &Vec<(String, String)>)
    ensures
        final(out)@ == old(out)@ + spec_enc_meta_table(m.deep_view()),
{
    let ghost encs = spec_meta_entry_encs(m.deep_view());
    push_u64(out, m.len() as u64);
    let ghost base = out@;
    let mut i: usize = 0;
    while i < m.len()
        invariant
            0 <= i <= m@.len(),
            encs == spec_meta_entry_encs(m.deep_view()),
            out@ == base + spec_concat(encs.subrange(0, i as int)),
        decreases m@.len() - i,
    {
        push_str(out, m[i].0.as_str());
        push_str(out, m[i].1.as_str());
        i += 1;
        proof {
            assert(m.deep_view()[i - 1] == (m@[i - 1].0@, m@[i - 1].1@));
            assert(encs[i - 1] == spec_enc_meta_entry(m.deep_view()[i - 1]));
            assert(encs.subrange(0, i as int) =~= encs.subrange(0, i - 1).push(encs[i - 1]));
            lemma_concat_push(encs.subrange(0, i - 1), encs[i - 1]);
            assert(out@ =~= base + spec_concat(encs.subrange(0, i as int)));
        }
    }
    proof {
        assert(encs.subrange(0, encs.len() as int) =~= encs);
        assert(final(out)@ =~= old(out)@ + spec_enc_meta_table(m.deep_view()));
    }
}

#[verifier::rlimit(100)]
pub fn enc_peer_table(out: &mut Vec<u8>, m: &SortedMap<PeerConnectionInfo>)
    ensures
        final(out)@ == old(out)@ + spec_enc_peer_table(m.dseq()),
{
    let ghost encs = spec_peer_entry_encs(m.dseq());
    let entries = m.entries();
    push_u64(out, entries.len() as u64);
    let ghost base = out@;
    let mut i: usize = 0;
    while i < entries.len()
        invariant
            entries@ == m.entries_seq(),
            0 <= i <= entries@.len(),
            encs == spec_peer_entry_encs(m.dseq()),
            out@ == base + spec_concat(encs.subrange(0, i as int)),
        decreases entries@.len() - i,
    {
        push_u16(out, entries[i].0);
        push_bytes(out, &entries[i].1.cert);
        push_str(out, entries[i].1.p2p_url.as_str());
        push_str(out, entries[i].1.api_url.as_str());
        push_str(out, entries[i].1.name.as_str());
        push_opt_str(out, &entries[i].1.federation_name);
        i += 1;
        proof {
            assert(encs[i - 1] == spec_enc_peer_entry(m.dseq()[i - 1]));
            assert(encs.subrange(0, i as int) =~= encs.subrange(0, i - 1).push(encs[i - 1]));
            lemma_concat_push(encs.subrange(0, i - 1), encs[i - 1]);
            assert(out@ =~= base + spec_concat(encs.subrange(0, i as int)));
        }
    }
    proof {
        assert(encs.subrange(0, encs.len() as int) =~= encs);
        assert(final(out)@ =~= old(out)@ + spec_enc_peer_table(m.dseq()));
    }
}

// --- whole-section encodings ---

/// The canonical encoding of the full consensus section.
pub open spec fn spec_enc_consensus(c: ServerConfigConsensusV) -> Seq<u8> {
    spec_enc_str(c.code_version) + spec_u32_be(c.version.major) + spec_u32_be(c.version.minor)
        + spec_enc_bytes_table(c.broadcast_public_keys) + spec_u16_be(
        c.broadcast_rounds_per_session,
    ) + spec_enc_url_table(c.api_endpoints) + spec_enc_iroh_table(c.iroh_endpoints)
        + spec_enc_cert_table(c.tls_certs) + spec_enc_module_table(c.modules) + spec_enc_meta_table(
        c.meta,
    )
}

/// The fixed historical subset of the consensus fields: everything but the
/// alternate-transport endpoints, which were added after the legacy hash's
/// schema was frozen.
pub struct LegacyConsensusFieldsV {
    pub code_version: Seq<char>,
    pub version: CoreConsensusVersion,
    pub broadcast_public_keys: Seq<(u16, Seq<u8>)>,
    pub broadcast_rounds_per_session: u16,
    pub api_endpoints: Seq<(u16, PeerUrlV)>,
    pub tls_certs: Seq<(u16, Seq<char>)>,
    pub modules: Seq<(u16, ServerModuleConsensusConfigV)>,
    pub meta: Seq<(Seq<char>, Seq<char>)>,
}

pub open spec fn spec_legacy_fields(c: ServerConfigConsensusV) -> LegacyConsensusFieldsV {
    LegacyConsensusFieldsV {
        code_version: c.code_version,
        version: c.version,
        broadcast_public_keys: c.broadcast_public_keys,
        broadcast_rounds_per_session: c.broadcast_rounds_per_session,
        api_endpoints: c.api_endpoints,
        tls_certs: c.tls_certs,
        modules: c.modules,
        meta: c.meta,
    }
}

pub open spec fn spec_enc_legacy(f: LegacyConsensusFieldsV) -> Seq<u8> {
    spec_enc_str(f.code_version) + spec_u32_be(f.version.major) + spec_u32_be(f.version.minor)
        + spec_enc_bytes_table(f.broadcast_public_keys) + spec_u16_be(
        f.broadcast_rounds_per_session,
    ) + spec_enc_url_table(f.api_endpoints) + spec_enc_cert_table(f.tls_certs)
        + spec_enc_module_table(f.modules) + spec_enc_meta_table(f.meta)
}

/// The federation identity: the digest of the API endpoint table.
pub struct FederationId {
    pub id: Vec<u8>,
}

impl FederationId {
    pub open spec fn wf(self) -> bool {
        self.id@.len() == 32
    }
}

#[verifier::opaque]
pub open spec fn spec_federation_id(api_endpoints: Seq<(u16, PeerUrlV)>) -> Seq<u8> {
    sha256_of(spec_enc_url_table(api_endpoints))
}

/// The digest of the consensus peer table, broadcast before key generation
/// starts.
#[verifier::opaque]
pub open spec fn spec_peer_table_hash(peers: Seq<(u16, PeerConnectionInfoV)>) -> Seq<u8> {
    sha256_of(spec_enc_peer_table(peers))
}

/// The digest of the assembled consensus section, broadcast after key
/// generation.
#[verifier::opaque]
pub open spec fn spec_consensus_hash(c: ServerConfigConsensusV) -> Seq<u8> {
    sha256_of(spec_enc_consensus(c))
}

#[verifier::opaque]
pub open spec fn spec_legacy_hash(c: ServerConfigConsensusV) -> Seq<u8> {
    sha256_of(spec_enc_legacy(spec_legacy_fields(c)))
}

/// Hash the consensus peer table.
pub fn peer_table_hash(peers: &SortedMap<PeerConnectionInfo>) -> (r: Vec<u8>)
    ensures
        r@ == spec_peer_table_hash(peers.dseq()),
        r@.len() == 32,
{
    let mut out: Vec<u8> = Vec::new();
    enc_peer_table(&mut out, peers);
    proof {
        reveal(spec_peer_table_hash);
        assert(out@ =~= spec_enc_peer_table(peers.dseq()));
    }
    sha256_digest(&out)
}

/// Hash the assembled consensus section.
pub fn consensus_hash(c: &ServerConfigConsensus) -> (r: Vec<u8>)
    ensures
        r@ == spec_consensus_hash(c.deep_view()),
        r@.len() == 32,
{
    let mut out: Vec<u8> = Vec::new();
    push_str(&mut out, c.code_version.as_str());
    push_u32(&mut out, c.version.major);
    push_u32(&mut out, c.version.minor);
    enc_bytes_table(&mut out, &c.broadcast_public_keys);
    push_u16(&mut out, c.broadcast_rounds_per_session);
    enc_url_table(&mut out, &c.api_endpoints);
    enc_iroh_table(&mut out, &c.iroh_endpoints);
    enc_cert_table(&mut out, &c.tls_certs);
    enc_module_table(&mut out, &c.modules);
    enc_meta_table(&mut out, &c.meta);
    proof {
        reveal(spec_consensus_hash);
        assert(out@ =~= spec_enc_consensus(c.deep_view()));
    }
    sha256_digest(&out)
}

/// Hash the fixed historical subset of the consensus fields.
pub fn legacy_consensus_config_hash(c: &ServerConfigConsensus) -> (r: Vec<u8>)
    ensures
        r@ == spec_legacy_hash(c.deep_view()),
        r@.len() == 32,
{
    let mut out: Vec<u8> = Vec::new();
    push_str(&mut out, c.code_version.as_str());
    push_u32(&mut out, c.version.major);
    push_u32(&mut out, c.version.minor);
    enc_bytes_table(&mut out, &c.broadcast_public_keys);
    push_u16(&mut out, c.broadcast_rounds_per_session);
    enc_url_table(&mut out, &c.api_endpoints);
    enc_cert_table(&mut out, &c.tls_certs);
    enc_module_table(&mut out, &c.modules);
    enc_meta_table(&mut out, &c.meta);
    proof {
        reveal(spec_legacy_hash);
        assert(out@ =~= spec_enc_legacy(spec_legacy_fields(c.deep_view())));
    }
    sha256_digest(&out)
}

impl ServerConfig {
    /// The federation identity: stable for the life of the federation,
    /// consumed by invite codes.
    pub fn calculate_federation_id(&self) -> (r: FederationId)
        ensures
            r.wf(),
            r.id@ == spec_federation_id(self.consensus.api_endpoints.dseq()),
    {
        let mut out: Vec<u8> = Vec::new();
        enc_url_table(&mut out, &self.consensus.api_endpoints);
        proof {
            reveal(spec_federation_id);
            assert(out@ =~= spec_enc_url_table(self.consensus.api_endpoints.dseq()));
        }
        FederationId { id: sha256_digest(&out) }
    }
}

/// The federation identity is a function of the endpoint table's contents
/// alone: two well-formed tables that store the same endpoints under the
/// same peer ids hash to the same identity, however they were built.
pub proof fn lemma_federation_id_stable(m1: SortedMap<PeerUrl>, m2: SortedMap<PeerUrl>)
    requires
        m1.wf(),
        m2.wf(),
        forall|k: u16| #[trigger] m1.dget(k) == m2.dget(k),
    ensures
        spec_federation_id(m1.dseq()) == spec_federation_id(m2.dseq()),
{
    reveal(spec_federation_id);
    SortedMap::lemma_canonical(m1, m2);
    assert(m1.dseq() =~= m2.dseq());
}

/// The legacy hash reads only the legacy fields: two consensus sections that
/// agree on them hash to the same legacy value, whatever their
/// alternate-transport endpoint tables hold.
pub proof fn lemma_legacy_hash_ignores_extensions(
    c1: ServerConfigConsensusV,
    c2: ServerConfigConsensusV,
)
    requires
        spec_legacy_fields(c1) == spec_legacy_fields(c2),
    ensures
        spec_legacy_hash(c1) == spec_legacy_hash(c2),
{
    reveal(spec_legacy_hash);
}

} // verus!
