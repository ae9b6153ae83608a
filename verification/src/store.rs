//! In-memory model of the content-addressed block store and its tag table.
//!
//! Blocks are immutable once stored and are addressed by their header hash.
//! Tags are the only mutable pointers: a name bound to a block hash, used for
//! the local `tip` and for the per-peer `remote/<name>` sync pointers.

use vstd::prelude::*;
use vstd::hash_map::HashMapWithView;
use vstd::hash_map::StringHashMap;
use crate::block::Block;
use crate::block::HeaderHash;

verus! {

broadcast use vstd::std_specs::hash::group_hash_axioms;

/// The storage a blockchain instance operates on: a block table addressed by
/// header hash and a tag table of named pointers into it.
pub struct Store {
    blocks: HashMapWithView<u64, Block>,
    tags: StringHashMap<HeaderHash>,
}

impl Store {
    /// The blocks held, as a map from header-hash value to block.
    pub closed spec fn blocks(self) -> Map<u64, Block> {
        self.blocks@
    }

    /// The tag table, as a map from tag name to the hash it points at.
    pub closed spec fn tags(self) -> Map<Seq<char>, HeaderHash> {
        self.tags@
    }

    /// Every block is filed under its own header hash, and the block table
    /// holds finitely many blocks.
    pub open spec fn wf(self) -> bool {
        &&& forall|h: u64|
            self.blocks().contains_key(h) ==> (#[trigger] self.blocks()[h]).hash.value == h
        &&& self.blocks().dom().finite()
    }

    /// The block stored under the given hash, if any.
    pub open spec fn block_at(self, h: HeaderHash) -> Option<Block> {
        if self.blocks().contains_key(h.value) {
            Some(self.blocks()[h.value])
        } else {
            None
        }
    }

    /// The hash a tag points at, if the tag exists.
    pub open spec fn tag_at(self, name: Seq<char>) -> Option<HeaderHash> {
        if self.tags().contains_key(name) {
            Some(self.tags()[name])
        } else {
            None
        }
    }

    /// An empty store: no blocks, no tags.
    pub fn new() -> (r: Store)
        ensures
            r.blocks() == Map::<u64, Block>::empty(),
            r.tags() == Map::<Seq<char>, HeaderHash>::empty(),
            r.wf(),
    {
        Store { blocks: HashMapWithView::new(), tags: StringHashMap::new() }
    }

    /// Number of blocks held.
    pub fn block_count(&self) -> (r: usize)
        ensures
            r == self.blocks().len(),
    {
        self.blocks.len()
    }

    /// Store a block under its own header hash; a block already stored under
    /// that hash is replaced.
    pub fn put_block(&mut self, b: Block)
        requires
            old(self).wf(),
        ensures
            final(self).blocks() == old(self).blocks().insert(b.hash.value, b),
            final(self).tags() == old(self).tags(),
            final(self).wf(),
    {
        self.blocks.insert(b.hash.value, b);
    }

    /// Fetch the block stored under the given header hash.
    pub fn get_block_by_hash(&self, h: HeaderHash) -> (r: Option<Block>)
        ensures
            r == self.block_at(h),
    {
        match self.blocks.get(&h.value) {
            Some(b) => Some(*b),
            None => None,
        }
    }

    /// Bind a tag name to a hash, replacing any previous binding.
    pub fn write_hash(&mut self, name: String, h: HeaderHash)
        ensures
            final(self).tags() == old(self).tags().insert(name@, h),
            final(self).blocks() == old(self).blocks(),
            old(self).wf() ==> final(self).wf(),
    {
        self.tags.insert(name, h);
    }

    /// Read the hash a tag points at; `None` is the distinguishable
    /// "no such tag" condition.
    pub fn read_tag(&self, name: &str) -> (r: Option<HeaderHash>)
        ensures
            r == self.tag_at(name@),
    {
        match self.tags.get(name) {
            Some(h) => Some(*h),
            None => None,
        }
    }

    /// Delete a tag binding; deleting an absent tag leaves the table as it is.
    pub fn remove_tag(&mut self, name: &str)
        ensures
            final(self).tags() == old(self).tags().remove(name@),
            final(self).blocks() == old(self).blocks(),
            old(self).wf() ==> final(self).wf(),
    {
        self.tags.remove(name);
    }
}

} // verus!
