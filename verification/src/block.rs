//! Block identities and chain positions.
//!
//! A block is identified by its header hash; the store only ever compares
//! hashes for equality, so a hash is modelled as a plain machine word.

use vstd::prelude::*;

verus! {

/// Identity of a block header: an opaque content hash, compared only for
/// equality.
#[derive(Clone, Copy, Debug, PartialEq, Eq, Structural, Hash)]
pub struct HeaderHash {
    pub value: u64,
}

/// Chain position of a block: genesis blocks carry only an epoch number,
/// ordinary blocks an epoch and a slot within it.
#[derive(Clone, Copy, Debug, PartialEq, Eq, Structural)]
pub enum BlockDate {
    Genesis(u64),
    Normal { epoch: u64, slot: u64 },
}

/// The part of a stored block that the chain bookkeeping reads: its own
/// header hash, the hash of its parent header, and its chain position.
#[derive(Clone, Copy, Debug, PartialEq, Eq, Structural)]
pub struct Block {
    pub hash: HeaderHash,
    pub parent: HeaderHash,
    pub date: BlockDate,
}

/// A lightweight descriptor of a block's identity and chain position,
/// derived either from a stored block or from the chain configuration.
#[derive(Clone, Copy, Debug, PartialEq, Eq, Structural)]
pub struct BlockRef {
    pub hash: HeaderHash,
    pub parent: HeaderHash,
    pub date: BlockDate,
}

impl Block {
    /// The descriptor of this block.
    pub fn to_ref(&self) -> (r: BlockRef)
        ensures
            r == (BlockRef { hash: self.hash, parent: self.parent, date: self.date }),
    {
        BlockRef { hash: self.hash, parent: self.parent, date: self.date }
    }
}

} // verus!
