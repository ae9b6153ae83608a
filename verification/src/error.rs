//! Error taxonomy of the management layer.

use vstd::prelude::*;
use crate::block::HeaderHash;

verus! {

/// What can go wrong while managing a chain or resolving a range.
///
/// Only the "no such tag" condition is ever recovered locally (it is mapped
/// to the genesis default when a tip is resolved); every variant here is
/// surfaced to the caller.
#[derive(Clone, Copy, Debug, PartialEq, Eq, Structural)]
pub enum Error {
    /// On-disk storage for the chain could not be created or opened.
    InitializationError,
    /// The chain's config file is missing or unparseable.
    ConfigError,
    /// A peer with the given alias is already registered.
    DuplicatePeer,
    /// A referenced hash (range endpoint or parent link) is absent from the
    /// store; recoverable by fetching more blocks and retrying.
    UnknownBlock(HeaderHash),
    /// The backward walk from the second hash never reached the first: the
    /// two hashes are not on a common ancestor chain.
    NoPathFound(HeaderHash, HeaderHash),
    /// The store failed after a path through it was already validated, or a
    /// tag resolution failed for a reason other than "no such tag": fatal.
    StorageCorruption,
}

} // verus!
