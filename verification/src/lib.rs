//! A multi-index work-item registry with a settlement-gated state
//! machine: actors register under roles, a poster creates a work item
//! for a price, a claimant claims and completes it, and a settlement
//! transfers the exact amount owed, at most once. One canonical record
//! exists per id; the secondary indices hold only ids and every listing
//! dereferences through the canonical store, so no view can go stale.

pub mod actor;
pub mod engine;
pub mod errors;
mod index;
pub mod item;
pub mod laws;
pub mod lifecycle;
pub mod store;

use vstd::prelude::*;

verus! {

/// Namespaces of the durable key-value layer that a host may use to persist
/// the registry's stores. Each namespace maps to a distinct one-byte prefix,
/// so records of different stores can never collide under one key.
#[derive(Clone, Copy, PartialEq, Eq, Structural, Debug)]
pub enum StorageKey {
    Actors,
    Items,
    PosterIndex,
    ClaimantIndex,
}

pub open spec fn spec_prefix(k: StorageKey) -> u8 {
    match k {
        StorageKey::Actors => 0,
        StorageKey::Items => 1,
        StorageKey::PosterIndex => 2,
        StorageKey::ClaimantIndex => 3,
    }
}

impl StorageKey {
    /// The one-byte key prefix of this namespace.
    pub fn prefix(self) -> (r: u8)
        ensures
            r == spec_prefix(self),
    {
        match self {
            StorageKey::Actors => 0,
            StorageKey::Items => 1,
            StorageKey::PosterIndex => 2,
            StorageKey::ClaimantIndex => 3,
        }
    }
}

} // verus!
