//! Capability markers attachable to a chain instance as metadata. They carry
//! no behavior of their own and have no influence on hash computation;
//! downstream collaborators interpret them.

use vstd::prelude::*;

verus! {

/// An open set of feature tags a caller may attach to a chain.
#[derive(Debug, Clone, Copy, PartialEq, Eq, Hash)]
pub enum Extensions {
    /// Hashing of the ticks.
    TickHasher,
    /// Breaking of the ticks.
    Breaker,
    /// Building a Merkle tree over entries.
    MerkleTree,
    /// Plain timestamps attached to ticks.
    Timestamp,
    /// RFC 3339 timestamps attached to ticks.
    TimestampRFC3339,
    /// Milestones in the chain's progress.
    Milestone,
}

} // verus!
