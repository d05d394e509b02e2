//! Setup layer of a federated custodial e-cash service.
//!
//! A fixed set of mutually distrusting guardian peers jointly derives one
//! shared, cryptographically bound configuration before the service runs.
//! The crate holds the config data model and its hashing, the trusted-dealer
//! generation path, the checksum consistency barrier and the distributed
//! generation orchestrator (as an explicit state machine driven by a caller
//! that performs the network work), and the config validator.

use vstd::prelude::*;

pub mod client;
pub mod codec;
pub mod config;
pub mod crypto;
pub mod dealer;
pub mod dkg;
pub mod encoding;
pub mod gateways;
pub mod hashing;
pub mod identity;
pub mod mint_output;
pub mod peer_info;
pub mod registry;
pub mod sorted_map;
pub mod types;
pub mod validate;

verus! {

/// Dense integer identifier of a guardian peer. The valid set for an
/// `n`-peer federation is exactly `{0, ..., n-1}`.
#[derive(Clone, Copy, Debug, PartialEq, Eq, Structural, Hash)]
pub struct PeerId(pub u16);

impl PeerId {
    pub fn to_usize(self) -> (r: usize)
        ensures
            r == self.0 as usize,
    {
        self.0 as usize
    }
}

} // verus!
