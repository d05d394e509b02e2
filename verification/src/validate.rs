//! The configuration validator: run once after generation, before a
//! configuration is put into service.
//!
//! It checks, in order: that the locally held broadcast secret key derives
//! the public key stored under this peer's id in the consensus section; that
//! the local peer table is indexed exactly `{0, ..., n-1}`; and that every
//! module instance's configuration passes its own module's validator.

use vstd::prelude::*;

use crate::config::ServerConfig;
use crate::crypto::{broadcast_public_key_of, valid_broadcast_secret_key};
use crate::registry::ModuleInitRegistry;
use crate::sorted_map::{entries_sorted, lemma_seq_lookup_entries, seq_lookup};
use crate::types::{bytes_eq, ModuleInstanceId, ServerModuleConfigV};
use crate::PeerId;

verus! {

/// Why a configuration was rejected.
#[derive(Debug)]
pub enum ConfigValidationError {
    /// The broadcast secret key does not derive the public key stored under
    /// this peer's id (or no key is stored there, or the secret key itself
    /// is invalid).
    BroadcastKeyMismatch,
    /// The peer ids of the local peer table are not exactly `{0, ..., n-1}`.
    PeerIdsNotContiguous,
    /// A module kind present in the consensus section has no registered
    /// implementation.
    ModuleKindNotRegistered(ModuleInstanceId),
    /// A module's own validator rejected its configuration.
    ModuleConfigInvalid(ModuleInstanceId, String),
    /// A module instance present in the consensus section has no local or
    /// private record.
    ModuleRecordMissing(ModuleInstanceId),
}

/// The stored broadcast key material is consistent: the secret key is valid
/// and derives the public key stored under `identity`.
pub open spec fn spec_broadcast_key_consistent(c: ServerConfig, identity: PeerId) -> bool {
    &&& valid_broadcast_secret_key(c.private.broadcast_secret_key@)
    &&& seq_lookup(c.consensus.broadcast_public_keys.dseq(), identity.0) == Some(
        broadcast_public_key_of(c.private.broadcast_secret_key@),
    )
}

/// The local peer table is nonempty and keyed exactly `{0, ..., n-1}`: a
/// federation has at least peer 0.
pub open spec fn spec_peer_ids_contiguous(c: ServerConfig) -> bool {
    &&& c.local.p2p_endpoints.dseq().len() > 0
    &&& forall|j: int|
        0 <= j < c.local.p2p_endpoints.dseq().len() ==> (
        #[trigger] c.local.p2p_endpoints.dseq()[j]).0 == j
}

/// The module record the validator hands a module's own validator: the
/// local, private and consensus entries stored under one instance id.
pub open spec fn spec_module_config_at(c: ServerConfig, id: u16) -> ServerModuleConfigV {
    ServerModuleConfigV {
        local: seq_lookup(c.local.modules.dseq(), id).unwrap(),
        private: seq_lookup(c.private.modules.dseq(), id).unwrap(),
        consensus: seq_lookup(c.consensus.modules.dseq(), id).unwrap(),
    }
}

impl ServerConfig {
    /// Validate this configuration for service under the given identity.
    ///
    /// Returns the first failure: a broadcast key inconsistency, a peer
    /// table not indexed from zero, or a module whose own validation fails.
    /// Succeeds exactly when the key material is consistent, the peer ids
    /// are contiguous and every module's record is present, registered and
    /// accepted by its module.
    pub fn validate_config<R: ModuleInitRegistry>(
        &self,
        identity: PeerId,
        registry: &R,
    ) -> (r: Result<(), ConfigValidationError>)
        requires
            self.wf(),
        ensures
            r matches Err(ConfigValidationError::BroadcastKeyMismatch)
                <==> !spec_broadcast_key_consistent(*self, identity),
            r matches Err(ConfigValidationError::PeerIdsNotContiguous)
                <==> spec_broadcast_key_consistent(*self, identity) && !spec_peer_ids_contiguous(
                *self,
            ),
            // success: the key material, the indexing, and every module's
            // records and own verdict
            r is Ok ==> spec_broadcast_key_consistent(*self, identity)
                && spec_peer_ids_contiguous(*self) && (forall|j: int|
                0 <= j < self.consensus.modules.dseq().len() ==> {
                    let id = (#[trigger] self.consensus.modules.dseq()[j]).0;
                    &&& registry.registered(self.consensus.modules.dseq()[j].1.kind)
                    &&& seq_lookup(self.local.modules.dseq(), id) is Some
                    &&& seq_lookup(self.private.modules.dseq(), id) is Some
                    &&& registry.spec_validate_config(
                        self.consensus.modules.dseq()[j].1.kind,
                        identity,
                        spec_module_config_at(*self, id),
                    ) is Ok
                }),
            // the error of each module check is tied to its cause
            r matches Err(ConfigValidationError::ModuleKindNotRegistered(id)) ==> (
            spec_broadcast_key_consistent(*self, identity) && spec_peer_ids_contiguous(*self)
                && (seq_lookup(self.consensus.modules.dseq(), id) matches Some(m)
                && !registry.registered(m.kind))),
            r matches Err(ConfigValidationError::ModuleRecordMissing(id)) ==> (
            spec_broadcast_key_consistent(*self, identity) && spec_peer_ids_contiguous(*self)
                && seq_lookup(self.consensus.modules.dseq(), id) is Some && (seq_lookup(
                self.local.modules.dseq(),
                id,
            ) is None || seq_lookup(self.private.modules.dseq(), id) is None)),
            // a rejected module surfaces that module's own verdict
            r matches Err(ConfigValidationError::ModuleConfigInvalid(id, e)) ==> (
            spec_broadcast_key_consistent(*self, identity) && spec_peer_ids_contiguous(*self)
                && (seq_lookup(self.consensus.modules.dseq(), id) matches Some(m)
                && registry.registered(m.kind) && (registry.spec_validate_config(
                m.kind,
                identity,
                spec_module_config_at(*self, id),
            ) matches Err(msg) && msg == e@))),
            // with consistent keys, contiguous ids and no modules, success is
            // owed: no module's own verdict is involved
            spec_broadcast_key_consistent(*self, identity) && spec_peer_ids_contiguous(*self)
                && self.consensus.modules.dseq().len() == 0 ==> r is Ok,
    {
        // secret/public key correspondence
        let derived = crate::crypto::derive_broadcast_public_key(
            &self.private.broadcast_secret_key,
        );
        proof {
            self.consensus.broadcast_public_keys.lemma_dget_is_dseq_lookup(identity.0);
        }
        match derived {
            Some(pk) => {
                match self.consensus.broadcast_public_keys.get(identity.0) {
                    Some(stored) => {
                        proof {
                            assert(stored.deep_view() =~= stored@);
                        }
                        if !bytes_eq(&pk, stored) {
                            proof {
                                assert(!spec_broadcast_key_consistent(*self, identity));
                            }
                            return Err(ConfigValidationError::BroadcastKeyMismatch);
                        }
                        proof {
                            assert(spec_broadcast_key_consistent(*self, identity));
                        }
                    },
                    None => {
                        return Err(ConfigValidationError::BroadcastKeyMismatch);
                    },
                }
            },
            None => {
                return Err(ConfigValidationError::BroadcastKeyMismatch);
            },
        }

        // peer ids indexed from zero, no gaps: the table must hold peer 0,
        // and with sorted unique keys it is enough that each stored key
        // equals its position
        let entries = self.local.p2p_endpoints.entries();
        if entries.len() == 0 {
            return Err(ConfigValidationError::PeerIdsNotContiguous);
        }
        let mut j: usize = 0;
        while j < entries.len()
            invariant
                spec_broadcast_key_consistent(*self, identity),
                entries@ == self.local.p2p_endpoints.entries_seq(),
                0 <= j <= entries@.len(),
                forall|i: int| 0 <= i < j ==> (#[trigger] entries@[i]).0 == i,
            decreases entries@.len() - j,
        {
            if entries[j].0 as usize != j {
                proof {
                    assert(self.local.p2p_endpoints.dseq()[j as int].0 == entries@[j as int].0);
                    assert(!spec_peer_ids_contiguous(*self));
                }
                return Err(ConfigValidationError::PeerIdsNotContiguous);
            }
            j += 1;
        }
        proof {
            assert forall|i: int|
                0 <= i < self.local.p2p_endpoints.dseq().len() implies (
            #[trigger] self.local.p2p_endpoints.dseq()[i]).0 == i by {
                assert(entries@[i].0 == i);
            }
            assert(spec_peer_ids_contiguous(*self));
        }

        // every module's configuration passes its module's own validation
        let mentries = self.consensus.modules.entries();
        let mut k: usize = 0;
        while k < mentries.len()
            invariant
                self.wf(),
                spec_broadcast_key_consistent(*self, identity),
                spec_peer_ids_contiguous(*self),
                mentries@ == self.consensus.modules.entries_seq(),
                0 <= k <= mentries@.len(),
                forall|i: int|
                    0 <= i < k ==> {
                        let mid = (#[trigger] self.consensus.modules.dseq()[i]).0;
                        &&& registry.registered(self.consensus.modules.dseq()[i].1.kind)
                        &&& seq_lookup(self.local.modules.dseq(), mid) is Some
                        &&& seq_lookup(self.private.modules.dseq(), mid) is Some
                        &&& registry.spec_validate_config(
                            self.consensus.modules.dseq()[i].1.kind,
                            identity,
                            spec_module_config_at(*self, mid),
                        ) is Ok
                    },
            decreases mentries@.len() - k,
        {
            let id = mentries[k].0;
            proof {
                assert(entries_sorted(self.consensus.modules.dseq())) by {
                    assert forall|a: int, b: int|
                        0 <= a < b < self.consensus.modules.dseq().len() implies (
                    #[trigger] self.consensus.modules.dseq()[a]).0 < (
                    #[trigger] self.consensus.modules.dseq()[b]).0 by {
                        assert(self.consensus.modules.dseq()[a].0
                            == self.consensus.modules.entries_seq()[a].0);
                        assert(self.consensus.modules.dseq()[b].0
                            == self.consensus.modules.entries_seq()[b].0);
                    }
                }
                assert(self.consensus.modules.dseq()[k as int].0 == id);
                assert(self.consensus.modules.dseq()[k as int].1.kind
                    == mentries@[k as int].1.kind@);
                lemma_seq_lookup_entries(self.consensus.modules.dseq(), id);
                assert(seq_lookup(self.consensus.modules.dseq(), id) == Some(
                    self.consensus.modules.dseq()[k as int].1,
                ));
            }
            let module_config = match self.get_module_config(id) {
                Ok(m) => m,
                Err(_) => {
                    return Err(ConfigValidationError::ModuleRecordMissing(id));
                },
            };
            proof {
                assert(spec_module_config_at(*self, id) == module_config.deep_view());
            }
            match registry.validate_config(&mentries[k].1.kind, identity, &module_config) {
                None => {
                    return Err(ConfigValidationError::ModuleKindNotRegistered(id));
                },
                Some(Err(e)) => {
                    return Err(ConfigValidationError::ModuleConfigInvalid(id, e));
                },
                Some(Ok(())) => {
                    proof {
                        assert(self.consensus.modules.dseq()[k as int].1.kind
                            == mentries@[k as int].1.kind@);
                        assert(registry.spec_validate_config(
                            self.consensus.modules.dseq()[k as int].1.kind,
                            identity,
                            spec_module_config_at(*self, id),
                        ) is Ok);
                    }
                },
            }
            k += 1;
        }
        Ok(())
    }
}


} // verus!
