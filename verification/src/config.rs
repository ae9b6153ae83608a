//! Per-chain configuration: genesis parameters and the registered peers.

use vstd::prelude::*;
use crate::block::BlockDate;
use crate::block::BlockRef;
use crate::block::HeaderHash;

verus! {

/// A remote peer registered with a chain: the name is its identity within
/// the chain, the endpoint an opaque connection descriptor.
#[derive(Debug, PartialEq, Eq)]
pub struct NamedPeer {
    pub name: String,
    pub endpoint: String,
}

impl NamedPeer {
    pub fn new(name: String, endpoint: String) -> (r: NamedPeer)
        ensures
            r == (NamedPeer { name, endpoint }),
    {
        NamedPeer { name, endpoint }
    }

    /// A copy equal to this peer.
    pub fn duplicate(&self) -> (r: NamedPeer)
        ensures
            r == *self,
    {
        let r = NamedPeer { name: self.name.clone(), endpoint: self.endpoint.clone() };
        proof {
            assert(*self == (NamedPeer { name: self.name, endpoint: self.endpoint }));
        }
        r
    }
}

/// The predicate that keeps the peers not carrying the given name.
pub open spec fn not_named(name: Seq<char>) -> spec_fn(NamedPeer) -> bool {
    |p: NamedPeer| p.name@ != name
}

/// Some peer in the list carries the given name.
pub open spec fn has_peer(peers: Seq<NamedPeer>, name: Seq<char>) -> bool {
    exists|i: int| 0 <= i < peers.len() && (#[trigger] peers[i]).name@ == name
}

/// The immutable per-chain parameters fixed at creation, plus the peer list,
/// which is the one part that explicit peer add/remove may change.
#[derive(Debug, PartialEq, Eq)]
pub struct Config {
    pub genesis: HeaderHash,
    pub genesis_prev: HeaderHash,
    pub epoch_start: u64,
    pub peers: Vec<NamedPeer>,
}

/// The two configurations describe the same chain: equal genesis parameters
/// and equal peer lists.
pub open spec fn same_config(a: Config, b: Config) -> bool {
    &&& a.genesis == b.genesis
    &&& a.genesis_prev == b.genesis_prev
    &&& a.epoch_start == b.epoch_start
    &&& a.peers@ == b.peers@
}

/// The descriptor of the genesis block as the configuration declares it:
/// the genesis hash, its declared parent, and the epoch-start date.
pub open spec fn spec_genesis_ref(c: Config) -> BlockRef {
    BlockRef { hash: c.genesis, parent: c.genesis_prev, date: BlockDate::Genesis(c.epoch_start) }
}

impl Config {
    pub fn new(genesis: HeaderHash, genesis_prev: HeaderHash, epoch_start: u64) -> (r: Config)
        ensures
            r.genesis == genesis,
            r.genesis_prev == genesis_prev,
            r.epoch_start == epoch_start,
            r.peers@ == Seq::<NamedPeer>::empty(),
    {
        Config { genesis, genesis_prev, epoch_start, peers: Vec::new() }
    }

    /// The genesis descriptor this configuration declares.
    pub fn genesis_ref(&self) -> (r: BlockRef)
        ensures
            r == spec_genesis_ref(*self),
    {
        BlockRef {
            hash: self.genesis,
            parent: self.genesis_prev,
            date: BlockDate::Genesis(self.epoch_start),
        }
    }

    /// A copy describing the same chain.
    pub fn duplicate(&self) -> (r: Config)
        ensures
            same_config(r, *self),
    {
        let mut peers: Vec<NamedPeer> = Vec::new();
        let mut i: usize = 0;
        while i < self.peers.len()
            invariant
                i <= self.peers.len(),
                peers@ =~= self.peers@.take(i as int),
            decreases self.peers.len() - i,
        {
            peers.push(self.peers[i].duplicate());
            proof {
                assert(peers@ =~= self.peers@.take(i + 1 as int));
            }
            i = i + 1;
        }
        proof {
            assert(peers@ =~= self.peers@);
        }
        Config {
            genesis: self.genesis,
            genesis_prev: self.genesis_prev,
            epoch_start: self.epoch_start,
            peers,
        }
    }
}

} // verus!
