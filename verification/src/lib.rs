//! Local management layer of a blockchain client.
//!
//! The crate owns a named blockchain instance over a content-addressed block
//! store: it tracks the canonical tip and the tips reported by remote peers
//! through named tags, and provides verified traversal of a range of blocks
//! along the canonical chain. Reading and writing the store's on-disk form,
//! and serializing the config file, are the embedder's task: the library
//! works on the in-memory [`Store`] and [`Config`] values it is handed.

use vstd::prelude::*;
use vstd::string::StringExecFns;

mod block;
mod config;
mod error;
mod iter;
mod store;

verus! {

pub use crate::block::HeaderHash;
pub use crate::block::BlockDate;
pub use crate::block::Block;
pub use crate::block::BlockRef;
pub use crate::store::Store;
pub use crate::error::Error;
pub use crate::iter::Iter;
pub use crate::iter::is_chain;
pub use crate::iter::parent_closed;
pub use crate::iter::spec_range;
pub use crate::iter::spec_walk;
pub use crate::iter::lemma_empty_range;
pub use crate::iter::lemma_missing_endpoint;
pub use crate::iter::lemma_range_sound;
pub use crate::iter::lemma_range_complete;
pub use crate::iter::lemma_range_disconnected;
pub use crate::iter::lemma_range_no_path;
pub use crate::config::Config;
pub use crate::config::NamedPeer;
pub use crate::config::has_peer;
pub use crate::config::not_named;
pub use crate::config::same_config;
pub use crate::config::spec_genesis_ref;

/// The reserved tag name that points at the local chain head.
pub open spec fn tip_tag() -> Seq<char> {
    "tip"@
}

/// The tag name recording a peer's last-known-synced hash: the reserved
/// prefix `remote/` followed by the peer's name.
pub open spec fn remote_tag(name: Seq<char>) -> Seq<char> {
    "remote/"@ + name
}

/// The reserved tag name for the local chain head, as a string.
pub fn tip_tag_name() -> (r: String)
    ensures
        r@ == tip_tag(),
{
    String::from_str("tip")
}

/// The tag name for a peer's sync pointer, as a string.
pub fn remote_tag_name(remote: &str) -> (r: String)
    ensures
        r@ == remote_tag(remote@),
{
    String::from_str("remote/").concat(remote)
}

/// True if some peer in the list carries the given name.
fn find_peer(peers: &Vec<NamedPeer>, name: &String) -> (r: bool)
    ensures
        r == has_peer(peers@, name@),
{
    let mut i: usize = 0;
    while i < peers.len()
        invariant
            i <= peers.len(),
            forall|j: int| 0 <= j < i ==> (#[trigger] peers@[j]).name@ != name@,
        decreases peers.len() - i,
    {
        if peers[i].name == *name {
            return true;
        }
        i = i + 1;
    }
    false
}

/// A named blockchain instance: its chain configuration and the storage that
/// holds its blocks and tags.
pub struct Blockchain {
    pub name: String,
    pub config: Config,
    pub storage: Store,
}

impl Blockchain {
    /// How a tag resolves to a chain position: an absent tag falls back to
    /// the genesis descriptor; a tag at the genesis hash is answered from
    /// the configuration; any other hash is read from the store, and a miss
    /// there is the fatal `StorageCorruption` condition, the one store-layer
    /// failure that is not locally recovered.
    pub open spec fn spec_resolve(self, tag: Seq<char>) -> Result<(BlockRef, bool), Error> {
        match self.storage.tag_at(tag) {
            Option::None => Ok((spec_genesis_ref(self.config), true)),
            Option::Some(h) => if h == self.config.genesis {
                Ok((spec_genesis_ref(self.config), true))
            } else {
                match self.storage.block_at(h) {
                    Option::None => Err(Error::StorageCorruption),
                    Option::Some(b) => Ok(
                        (BlockRef { hash: b.hash, parent: b.parent, date: b.date }, false),
                    ),
                }
            },
        }
    }

    /// Resolve a tag to a block descriptor plus an "is this genesis" flag.
    fn resolve_tag(&self, tag: &str) -> (r: Result<(BlockRef, bool), Error>)
        ensures
            r == self.spec_resolve(tag@),
    {
        match self.storage.read_tag(tag) {
            Option::None => Ok((self.config.genesis_ref(), true)),
            Option::Some(h) => {
                if h == self.config.genesis {
                    Ok((self.config.genesis_ref(), true))
                } else {
                    match self.storage.get_block_by_hash(h) {
                        Option::None => Err(Error::StorageCorruption),
                        Option::Some(b) => Ok((b.to_ref(), false)),
                    }
                }
            },
        }
    }

    /// Create a new chain with the given settings: an empty block store in
    /// which every peer of the configuration gets a `remote/<name>` tag
    /// pointing at genesis, and the local tip tag is set to genesis. The
    /// resulting tag table holds exactly those bindings, all at the genesis
    /// hash. Creating the on-disk storage location is the embedder's task,
    /// done before this and reported as `InitializationError` if it fails.
    pub fn new(name: String, config: Config) -> (r: Blockchain)
        ensures
            r.name@ == name@,
            same_config(r.config, config),
            r.storage.wf(),
            r.storage.blocks() == Map::<u64, Block>::empty(),
            forall|t: Seq<char>|
                r.storage.tag_at(t) == (if t == tip_tag() || (exists|i: int|
                    0 <= i < config.peers@.len() && t == remote_tag(
                        (#[trigger] config.peers@[i]).name@,
                    )) {
                    Some(config.genesis)
                } else {
                    None::<HeaderHash>
                }),
    {
        let mut storage = Store::new();
        let mut i: usize = 0;
        while i < config.peers.len()
            invariant
                i <= config.peers.len(),
                storage.wf(),
                storage.blocks() == Map::<u64, Block>::empty(),
                forall|t: Seq<char>|
                    storage.tag_at(t) == (if (exists|j: int|
                        0 <= j < i && t == remote_tag((#[trigger] config.peers@[j]).name@)) {
                        Some(config.genesis)
                    } else {
                        None::<HeaderHash>
                    }),
            decreases config.peers.len() - i,
        {
            let tag = remote_tag_name(config.peers[i].name.as_str());
            let ghost pre = storage;
            storage.write_hash(tag, config.genesis);
            proof {
                let key = remote_tag(config.peers@[i as int].name@);
                assert forall|t: Seq<char>|
                    storage.tag_at(t) == (if (exists|j: int|
                        0 <= j < i + 1 && t == remote_tag((#[trigger] config.peers@[j]).name@)) {
                        Some(config.genesis)
                    } else {
                        None::<HeaderHash>
                    }) by {
                    if t == key {
                        assert(0 <= (i as int) && (i as int) < i + 1 && t == remote_tag(
                            config.peers@[i as int].name@,
                        ));
                        assert(storage.tag_at(t) == Some(config.genesis));
                    } else {
                        assert(storage.tag_at(t) == pre.tag_at(t));
                        if exists|j: int|
                            0 <= j < i + 1 && t == remote_tag((#[trigger] config.peers@[j]).name@) {
                            let j = choose|j: int|
                                0 <= j < i + 1 && t == remote_tag(
                                    (#[trigger] config.peers@[j]).name@,
                                );
                            assert(j != i as int);
                            assert(0 <= j < i && t == remote_tag(config.peers@[j].name@));
                        }
                    }
                }
            }
            i = i + 1;
        }
        let t = tip_tag_name();
        let ghost pre = storage;
        storage.write_hash(t, config.genesis);
        proof {
            assert forall|t: Seq<char>|
                storage.tag_at(t) == (if t == tip_tag() || (exists|i: int|
                    0 <= i < config.peers@.len() && t == remote_tag(
                        (#[trigger] config.peers@[i]).name@,
                    )) {
                    Some(config.genesis)
                } else {
                    None::<HeaderHash>
                }) by {
                if t == tip_tag() {
                    assert(storage.tag_at(t) == Some(config.genesis));
                } else {
                    assert(storage.tag_at(t) == pre.tag_at(t));
                }
            }
        }
        Blockchain { name, config, storage }
    }

    /// Wrap an already-persisted chain: the embedder opens the storage and
    /// deserializes the config file, and hands both over; a chain loaded
    /// from the state a fresh creation persisted is indistinguishable from
    /// the created one.
    pub fn load(name: String, config: Config, storage: Store) -> (r: Blockchain)
        ensures
            r.name@ == name@,
            same_config(r.config, config),
            r.storage == storage,
    {
        Blockchain { name, config, storage }
    }

    /// The settings to persist: a copy of the in-memory configuration,
    /// written to the chain's config file by the embedder.
    pub fn save(&self) -> (r: Config)
        ensures
            same_config(r, self.config),
    {
        self.config.duplicate()
    }

    /// Irreversibly give the chain up. Consuming the manager by value keeps
    /// the instance from being used afterwards; the name handed back tells
    /// the embedder which storage directory to delete.
    pub fn destroy(self) -> (r: String)
        ensures
            r@ == self.name@,
    {
        self.name
    }

    /// The tag name of a peer's sync pointer.
    pub fn mk_remote_tag(&self, remote: &str) -> (r: String)
        ensures
            r@ == remote_tag(remote@),
    {
        remote_tag_name(remote)
    }

    /// Register a peer and write its `remote/<alias>` tag pointing at
    /// genesis. An alias already registered is rejected with
    /// `DuplicatePeer` and changes nothing; the peer list is persisted only
    /// in memory, a following `save` writes it out.
    pub fn add_peer(&mut self, remote_alias: String, remote_endpoint: String) -> (r: Result<
        (),
        Error,
    >)
        ensures
            match r {
                Ok(u) => {
                    &&& !has_peer(old(self).config.peers@, remote_alias@)
                    &&& final(self).config.peers@ == old(self).config.peers@.push(
                        NamedPeer { name: remote_alias, endpoint: remote_endpoint },
                    )
                    &&& final(self).storage.tags() == old(self).storage.tags().insert(
                        remote_tag(remote_alias@),
                        old(self).config.genesis,
                    )
                    &&& final(self).storage.blocks() == old(self).storage.blocks()
                    &&& final(self).name@ == old(self).name@
                    &&& final(self).config.genesis == old(self).config.genesis
                    &&& final(self).config.genesis_prev == old(self).config.genesis_prev
                    &&& final(self).config.epoch_start == old(self).config.epoch_start
                },
                Err(e) => {
                    &&& e == Error::DuplicatePeer
                    &&& has_peer(old(self).config.peers@, remote_alias@)
                    &&& *final(self) == *old(self)
                },
            },
    {
        if find_peer(&self.config.peers, &remote_alias) {
            return Err(Error::DuplicatePeer);
        }
        let tag = remote_tag_name(remote_alias.as_str());
        let genesis = self.config.genesis;
        self.config.peers.push(NamedPeer { name: remote_alias, endpoint: remote_endpoint });
        self.storage.write_hash(tag, genesis);
        Ok(())
    }

    /// Remove the peer with the given alias, if registered, and delete its
    /// sync-pointer tag; removing an unknown alias changes nothing and is
    /// not an error.
    pub fn remove_peer(&mut self, remote_alias: String)
        ensures
            final(self).config.peers@ == old(self).config.peers@.filter(not_named(remote_alias@)),
            final(self).storage.tags() == old(self).storage.tags().remove(remote_tag(remote_alias@)),
            final(self).storage.blocks() == old(self).storage.blocks(),
            final(self).name@ == old(self).name@,
            final(self).config.genesis == old(self).config.genesis,
            final(self).config.genesis_prev == old(self).config.genesis_prev,
            final(self).config.epoch_start == old(self).config.epoch_start,
    {
        let ghost f = not_named(remote_alias@);
        let ghost s = self.config.peers@;
        let mut kept: Vec<NamedPeer> = Vec::new();
        proof {
            reveal(Seq::filter);
            assert(s.take(0).len() == 0);
            assert(kept@ =~= s.take(0).filter(f));
        }
        let mut i: usize = 0;
        while i < self.config.peers.len()
            invariant
                i <= self.config.peers.len(),
                s == self.config.peers@,
                kept@ =~= s.take(i as int).filter(f),
                f == not_named(remote_alias@),
            decreases self.config.peers.len() - i,
        {
            proof {
                reveal(Seq::filter);
                let tk1 = s.take(i + 1 as int);
                assert(tk1.drop_last() =~= s.take(i as int));
                assert(tk1.last() == s[i as int]);
                assert(tk1.filter(f) == (if f(tk1.last()) {
                    tk1.drop_last().filter(f).push(tk1.last())
                } else {
                    tk1.drop_last().filter(f)
                }));
            }
            if !(self.config.peers[i].name == remote_alias) {
                kept.push(self.config.peers[i].duplicate());
            }
            proof {
                assert(kept@ =~= s.take(i + 1 as int).filter(f));
            }
            i = i + 1;
        }
        proof {
            assert(s.take(s.len() as int) =~= s);
        }
        self.config.peers = kept;
        let tag = remote_tag_name(remote_alias.as_str());
        self.storage.remove_tag(tag.as_str());
    }

    /// The registered peers, in insertion order.
    pub fn peers(&self) -> (r: &Vec<NamedPeer>)
        ensures
            r@ == self.config.peers@,
    {
        &self.config.peers
    }

    /// Resolve the local chain head: the `tip` tag if it is set, the genesis
    /// descriptor if it is not, with the flag telling whether the head is
    /// the genesis block.
    pub fn load_tip(&self) -> (r: Result<(BlockRef, bool), Error>)
        ensures
            r == self.spec_resolve(tip_tag()),
    {
        self.resolve_tag("tip")
    }

    /// Overwrite the `tip` tag to point at the given hash. No validation
    /// that the hash is reachable from genesis happens here: that is the
    /// range traversal's job when a range is consumed.
    pub fn save_tip(&mut self, hh: HeaderHash)
        ensures
            final(self).storage.tags() == old(self).storage.tags().insert(tip_tag(), hh),
            final(self).storage.blocks() == old(self).storage.blocks(),
            final(self).name@ == old(self).name@,
            final(self).config == old(self).config,
    {
        let t = tip_tag_name();
        self.storage.write_hash(t, hh);
    }

    /// Resolve every peer's `remote/<name>` tag the way the local tip is
    /// resolved, in peer-list order; the first fatal resolution failure is
    /// surfaced instead.
    pub fn load_remote_tips(&self) -> (r: Result<Vec<(BlockRef, bool)>, Error>)
        ensures
            match r {
                Ok(v) => {
                    &&& v@.len() == self.config.peers@.len()
                    &&& forall|i: int|
                        0 <= i < v@.len() ==> self.spec_resolve(
                            remote_tag((#[trigger] self.config.peers@[i]).name@),
                        ) == Ok::<(BlockRef, bool), Error>(v@[i])
                },
                Err(e) => {
                    &&& e == Error::StorageCorruption
                    &&& exists|i: int|
                        0 <= i < self.config.peers@.len() && self.spec_resolve(
                            remote_tag((#[trigger] self.config.peers@[i]).name@),
                        ) is Err
                },
            },
    {
        let mut out: Vec<(BlockRef, bool)> = Vec::new();
        let mut i: usize = 0;
        while i < self.config.peers.len()
            invariant
                i <= self.config.peers.len(),
                out@.len() == i,
                forall|j: int|
                    0 <= j < i ==> self.spec_resolve(
                        remote_tag((#[trigger] self.config.peers@[j]).name@),
                    ) == Ok::<(BlockRef, bool), Error>(out@[j]),
            decreases self.config.peers.len() - i,
        {
            let tag = remote_tag_name(self.config.peers[i].name.as_str());
            match self.resolve_tag(tag.as_str()) {
                Ok(entry) => out.push(entry),
                Err(e) => {
                    return Err(e);
                },
            }
            i = i + 1;
        }
        Ok(out)
    }

    /// Open a validated range of blocks from `from` (exclusive) up to `to`
    /// (inclusive) along parent links.
    pub fn iter(&self, from: HeaderHash, to: HeaderHash) -> (r: Result<Iter, Error>)
        ensures
            match r {
                Ok(it) => {
                    &&& spec_range(self.storage, from, to) == Ok::<Seq<HeaderHash>, Error>(
                        it.spec_path(),
                    )
                    &&& it.spec_pos() == 0
                    &&& it.wf()
                },
                Err(e) => spec_range(self.storage, from, to) == Err::<Seq<HeaderHash>, Error>(e),
            },
    {
        Iter::new(&self.storage, from, to)
    }

    /// Open a range from `from` up to the current local tip.
    pub fn iter_to_tip(&self, from: HeaderHash) -> (r: Result<Iter, Error>)
        ensures
            match self.spec_resolve(tip_tag()) {
                Ok(tip) => match r {
                    Ok(it) => {
                        &&& spec_range(self.storage, from, tip.0.hash) == Ok::<
                            Seq<HeaderHash>,
                            Error,
                        >(it.spec_path())
                        &&& it.spec_pos() == 0
                        &&& it.wf()
                    },
                    Err(e) => spec_range(self.storage, from, tip.0.hash) == Err::<
                        Seq<HeaderHash>,
                        Error,
                    >(e),
                },
                Err(te) => r == Err::<Iter, Error>(te),
            },
    {
        match self.load_tip() {
            Ok(tip) => self.iter(from, tip.0.hash),
            Err(e) => Err(e),
        }
    }
}

/// Distinct peer names derive distinct sync-pointer tags: one peer's tag can
/// never shadow another's.
pub proof fn lemma_remote_tags_distinct(a: Seq<char>, b: Seq<char>)
    requires
        a != b,
    ensures
        remote_tag(a) != remote_tag(b),
{
    if remote_tag(a) == remote_tag(b) {
        assert(remote_tag(a).len() == "remote/"@.len() + a.len());
        assert(remote_tag(b).len() == "remote/"@.len() + b.len());
        assert(a.len() == b.len());
        assert forall|i: int| 0 <= i < a.len() implies a[i] == b[i] by {
            assert(remote_tag(a)["remote/"@.len() + i] == a[i]);
            assert(remote_tag(b)["remote/"@.len() + i] == b[i]);
        }
        assert(a =~= b);
    }
}

/// No peer name can derive a tag that collides with the reserved local tip
/// tag.
pub proof fn lemma_remote_tag_is_not_tip(name: Seq<char>)
    ensures
        remote_tag(name) != tip_tag(),
{
    reveal_strlit("remote/");
    reveal_strlit("tip");
    assert(remote_tag(name).len() >= 7);
}

/// A tag bound to the genesis hash resolves to the genesis descriptor with
/// the genesis flag set: so the tip of a freshly created chain, and so every
/// peer tag right after the peer was added.
pub proof fn lemma_resolve_genesis_tag(bc: Blockchain, tag: Seq<char>)
    requires
        bc.storage.tag_at(tag) == Some(bc.config.genesis),
    ensures
        bc.spec_resolve(tag) == Ok::<(BlockRef, bool), Error>((spec_genesis_ref(bc.config), true)),
{
}

/// An absent tag falls back to the same genesis default, not to a failure:
/// so a peer tag after the peer was removed, and the tip of a chain that
/// never saved one.
pub proof fn lemma_resolve_absent_tag(bc: Blockchain, tag: Seq<char>)
    requires
        bc.storage.tag_at(tag) is None,
    ensures
        bc.spec_resolve(tag) == Ok::<(BlockRef, bool), Error>((spec_genesis_ref(bc.config), true)),
{
}

/// Tip round-trip: a saved tip whose hash is the genesis hash or a stored
/// block reads back as exactly that hash, with the genesis flag set iff the
/// hash is the genesis hash.
pub proof fn lemma_tip_round_trip(bc: Blockchain, h: HeaderHash)
    requires
        bc.storage.wf(),
        bc.storage.tag_at(tip_tag()) == Some(h),
        h == bc.config.genesis || bc.storage.block_at(h) is Some,
    ensures
        bc.spec_resolve(tip_tag()) is Ok,
        bc.spec_resolve(tip_tag()).unwrap().0.hash == h,
        bc.spec_resolve(tip_tag()).unwrap().1 == (h == bc.config.genesis),
{
    if h != bc.config.genesis {
        let b = bc.storage.block_at(h).unwrap();
        assert(b.hash == h);
    }
}

/// Two instances with the same name, configuration, tags and blocks resolve
/// every tag alike: loading the state a creation persisted changes nothing
/// observable.
pub open spec fn same_state(a: Blockchain, b: Blockchain) -> bool {
    &&& a.name@ == b.name@
    &&& same_config(a.config, b.config)
    &&& a.storage.tags() == b.storage.tags()
    &&& a.storage.blocks() == b.storage.blocks()
}

/// Reloading persisted state preserves every observation made through tags:
/// in particular the local tip and all remote tips of the loaded instance
/// equal those of the instance that persisted the state.
pub proof fn lemma_reload_resolves_alike(a: Blockchain, b: Blockchain)
    requires
        same_state(a, b),
    ensures
        forall|t: Seq<char>| a.spec_resolve(t) == b.spec_resolve(t),
{
    assert forall|t: Seq<char>| a.spec_resolve(t) == b.spec_resolve(t) by {
        assert(a.storage.tag_at(t) == b.storage.tag_at(t));
        assert(spec_genesis_ref(a.config) == spec_genesis_ref(b.config));
        match a.storage.tag_at(t) {
            Option::None => {},
            Option::Some(h) => {
                assert(a.storage.block_at(h) == b.storage.block_at(h));
            },
        }
    }
}

} // verus!

