//! The client-side state machine of one mint output: an issuance request
//! waiting for blind signatures, driven to an aborted, failed or succeeded
//! terminal state.
//!
//! The cryptography (blind signature shares, their aggregation and
//! verification) lives in outside modules; the decisions here take those
//! verification results as inputs and are verified for every value of them.

use vstd::prelude::*;

use crate::sorted_map::{seq_lookup, SortedMap};
use crate::PeerId;

verus! {

/// An amount of e-cash, in the smallest denomination.
pub type Amount = u64;

/// One note issuance request: the key material the note will be bound to,
/// held as opaque bytes for the signing modules.
pub struct NoteIssuanceRequest {
    /// Spend key from which the note nonce is derived.
    pub spend_key: Vec<u8>,
    /// Key to unblind the blind signature supplied by the mint.
    pub blinding_key: Vec<u8>,
}

pub struct NoteIssuanceRequestV {
    pub spend_key: Seq<u8>,
    pub blinding_key: Seq<u8>,
}

impl DeepView for NoteIssuanceRequest {
    type V = NoteIssuanceRequestV;

    open spec fn deep_view(&self) -> NoteIssuanceRequestV {
        NoteIssuanceRequestV { spend_key: self.spend_key@, blinding_key: self.blinding_key@ }
    }
}

/// Issuance request created; waiting for blind signatures.
pub struct MintOutputStatesCreated {
    pub amount: Amount,
    pub issuance_request: NoteIssuanceRequest,
}

/// Issuance requests created, one per output index; waiting for blind
/// signatures.
pub struct MintOutputStatesCreatedMulti {
    pub issuance_requests: SortedMap<(Amount, NoteIssuanceRequest)>,
}

/// The transaction containing the issuance was rejected.
pub struct MintOutputStatesAborted;

/// The issuance failed after the transaction was accepted; with an honest
/// federation this does not happen.
pub struct MintOutputStatesFailed {
    pub error: String,
}

/// The issuance completed and the notes were added to the wallet.
pub struct MintOutputStatesSucceeded {
    pub amount: Amount,
}

/// The states of one mint output's issuance.
pub enum MintOutputStates {
    Created(MintOutputStatesCreated),
    Aborted(MintOutputStatesAborted),
    Failed(MintOutputStatesFailed),
    Succeeded(MintOutputStatesSucceeded),
    CreatedMulti(MintOutputStatesCreatedMulti),
}

/// What a mint output state machine watches for.
pub struct MintOutputCommon {
    /// The operation this state machine belongs to.
    pub operation_id: u64,
    /// The transaction the outputs sit in.
    pub txid: Vec<u8>,
    /// The first output index.
    pub start_idx: u16,
}

impl MintOutputCommon {
    /// The transaction the outputs sit in.
    pub fn txid(&self) -> (r: &Vec<u8>)
        ensures
            r@ == self.txid@,
    {
        &self.txid
    }
}

/// The first shape this state machine was stored in: one output per
/// machine, addressed by a single out point.
pub struct MintOutputCommonV0 {
    /// The operation this state machine belongs to.
    pub operation_id: u64,
    /// The transaction of the out point.
    pub txid: Vec<u8>,
    /// The output index of the out point.
    pub out_idx: u16,
}

/// One mint output's state machine, in its first stored shape.
pub struct MintOutputStateMachineV0 {
    pub common: MintOutputCommonV0,
    pub state: MintOutputStates,
}

/// One mint output's state machine.
pub struct MintOutputStateMachine {
    pub common: MintOutputCommon,
    pub state: MintOutputStates,
}

impl MintOutputStateMachine {
    pub fn operation_id(&self) -> (r: u64)
        ensures
            r == self.common.operation_id,
    {
        self.common.operation_id
    }

    /// Whether any transition can still fire: only the waiting states watch
    /// the transaction and the output outcomes; the terminal states watch
    /// nothing.
    pub fn has_transitions(&self) -> (r: bool)
        ensures
            r == (self.state is Created || self.state is CreatedMulti),
    {
        match self.state {
            MintOutputStates::Created(_) => true,
            MintOutputStates::CreatedMulti(_) => true,
            _ => false,
        }
    }

    /// The containing transaction was rejected: stop waiting.
    pub fn transition_tx_rejected(self) -> (r: Self)
        requires
            self.state is Created || self.state is CreatedMulti,
        ensures
            r.common == self.common,
            r.state is Aborted,
    {
        MintOutputStateMachine {
            common: self.common,
            state: MintOutputStates::Aborted(MintOutputStatesAborted),
        }
    }

    /// The output outcome arrived and the aggregated blind signature was
    /// checked against the amount tier's key: a valid signature completes
    /// the issuance with the requested amount, an invalid one fails it —
    /// invalid aggregate signatures mean the mint's published keys are
    /// inconsistent.
    pub fn transition_outcome_ready(self, signature_valid: bool) -> (r: Self)
        requires
            self.state is Created,
        ensures
            r.common == self.common,
            signature_valid ==> (r.state matches MintOutputStates::Succeeded(s) && s.amount
                == self.state->Created_0.amount),
            !signature_valid ==> r.state is Failed,
    {
        let amount = match &self.state {
            MintOutputStates::Created(c) => c.amount,
            _ => vstd::pervasive::unreached(),
        };
        if signature_valid {
            MintOutputStateMachine {
                common: self.common,
                state: MintOutputStates::Succeeded(MintOutputStatesSucceeded { amount }),
            }
        } else {
            MintOutputStateMachine {
                common: self.common,
                state: MintOutputStates::Failed(
                    MintOutputStatesFailed {
                        error: String::from_str("invalid blind signature"),
                    },
                ),
            }
        }
    }

    /// Every output's aggregated signature was already verified when the
    /// shares were collected, so the issuance succeeds with the total of the
    /// requested amounts.
    pub fn transition_outcome_ready_multi(self) -> (r: Self)
        requires
            self.state is CreatedMulti,
            sum_of_amounts(self.state->CreatedMulti_0.issuance_requests.dseq())
                <= u64::MAX,
        ensures
            r.common == self.common,
            (r.state matches MintOutputStates::Succeeded(s) && s.amount as int == sum_of_amounts(
                self.state->CreatedMulti_0.issuance_requests.dseq(),
            )),
    {
        let created = match &self.state {
            MintOutputStates::CreatedMulti(c) => c,
            _ => vstd::pervasive::unreached(),
        };
        let entries = created.issuance_requests.entries();
        let mut total: u64 = 0;
        let mut i: usize = 0;
        while i < entries.len()
            invariant
                entries@ == created.issuance_requests.entries_seq(),
                0 <= i <= entries@.len(),
                total as int == sum_of_amounts(
                    created.issuance_requests.dseq().subrange(0, i as int),
                ),
                sum_of_amounts(created.issuance_requests.dseq()) <= u64::MAX,
            decreases entries@.len() - i,
        {
            proof {
                lemma_sum_prefix(created.issuance_requests.dseq(), i as int);
            }
            total = total + entries[i].1.0;
            i += 1;
            proof {
                let d = created.issuance_requests.dseq();
                assert(d.subrange(0, i as int) =~= d.subrange(0, i - 1).push(d[i - 1]));
                lemma_sum_push(d.subrange(0, i - 1), d[i - 1]);
                assert(d[i - 1].1.0 == entries@[i - 1].1.0);
            }
        }
        proof {
            let d = created.issuance_requests.dseq();
            assert(d.subrange(0, d.len() as int) =~= d);
        }
        MintOutputStateMachine {
            common: self.common,
            state: MintOutputStates::Succeeded(MintOutputStatesSucceeded { amount: total }),
        }
    }
}

impl NoteIssuanceRequest {
    /// The key that unblinds the mint's blind signature for this note.
    pub fn blinding_key(&self) -> (r: &Vec<u8>)
        ensures
            r@ == self.blinding_key@,
    {
        &self.blinding_key
    }

    /// The key the finished note can be spent with.
    pub fn spend_key(&self) -> (r: &Vec<u8>)
        ensures
            r@ == self.spend_key@,
    {
        &self.spend_key
    }
}

/// The total of the amounts of a table of issuance requests.
pub open spec fn sum_of_amounts(s: Seq<(u16, (Amount, NoteIssuanceRequestV))>) -> int
    decreases s.len(),
{
    if s.len() == 0 {
        0
    } else {
        sum_of_amounts(s.drop_last()) + s.last().1.0
    }
}

proof fn lemma_sum_push(s: Seq<(u16, (Amount, NoteIssuanceRequestV))>, x: (
    u16,
    (Amount, NoteIssuanceRequestV),
))
    ensures
        sum_of_amounts(s.push(x)) == sum_of_amounts(s) + x.1.0,
{
    assert(s.push(x).drop_last() =~= s);
    assert(s.push(x).last() == x);
}

/// Every amount is nonnegative, so a prefix never exceeds the whole sum.
proof fn lemma_sum_prefix(s: Seq<(u16, (Amount, NoteIssuanceRequestV))>, i: int)
    requires
        0 <= i <= s.len(),
    ensures
        sum_of_amounts(s.subrange(0, i)) <= sum_of_amounts(s),
        sum_of_amounts(s.subrange(0, i)) >= 0,
        i < s.len() ==> sum_of_amounts(s.subrange(0, i)) + s[i].1.0 <= sum_of_amounts(s),
    decreases s.len() - i,
{
    if i == s.len() {
        assert(s.subrange(0, i) =~= s);
        lemma_sum_nonneg(s);
    } else {
        lemma_sum_prefix(s, i + 1);
        assert(s.subrange(0, i + 1) =~= s.subrange(0, i).push(s[i]));
        lemma_sum_push(s.subrange(0, i), s[i]);
        lemma_sum_nonneg(s.subrange(0, i));
    }
}

proof fn lemma_sum_nonneg(s: Seq<(u16, (Amount, NoteIssuanceRequestV))>)
    ensures
        sum_of_amounts(s) >= 0,
    decreases s.len(),
{
    if s.len() > 0 {
        lemma_sum_nonneg(s.drop_last());
    }
}

/// Why a peer's blind signature share was rejected.
#[derive(Debug)]
pub enum BlindShareError {
    /// The responding peer is not part of the key table.
    UnknownPeer,
    /// The peer has no key for this amount tier.
    InvalidAmountTier,
    /// The share does not verify against the peer's tier key.
    InvalidSignature,
}

/// Decide whether one peer's blind signature share is acceptable: the peer
/// must be known, it must hold a key for the amount's tier, and the share
/// must verify against that key. The cryptographic verification result is
/// taken as an input and the decision holds for every value of it.
pub fn verify_blind_share(
    peer: PeerId,
    peer_tiers: &SortedMap<Vec<u64>>,
    amount: Amount,
    share_valid: bool,
) -> (r: Result<(), BlindShareError>)
    requires
        peer_tiers.wf(),
    ensures
        r matches Err(BlindShareError::UnknownPeer) <==> seq_lookup(peer_tiers.dseq(), peer.0)
            is None,
        r matches Err(BlindShareError::InvalidAmountTier) <==> (seq_lookup(
            peer_tiers.dseq(),
            peer.0,
        ) matches Some(tiers) && !tiers.contains(amount)),
        r is Ok <==> (seq_lookup(peer_tiers.dseq(), peer.0) matches Some(tiers)
            && tiers.contains(amount) && share_valid),
{
    proof {
        peer_tiers.lemma_dget_is_dseq_lookup(peer.0);
    }
    let tiers = match peer_tiers.get(peer.0) {
        Some(t) => t,
        None => {
            return Err(BlindShareError::UnknownPeer);
        },
    };
    let mut i: usize = 0;
    let mut found = false;
    while i < tiers.len()
        invariant
            0 <= i <= tiers@.len(),
            found <==> exists|j: int| 0 <= j < i && tiers@[j] == amount,
        decreases tiers@.len() - i,
    {
        if tiers[i] == amount {
            found = true;
        }
        i += 1;
    }
    proof {
        assert(tiers.deep_view() =~= tiers@);
        assert(found == tiers@.contains(amount));
    }
    if !found {
        return Err(BlindShareError::InvalidAmountTier);
    }
    if !share_valid {
        return Err(BlindShareError::InvalidSignature);
    }
    Ok(())
}

} // verus!
