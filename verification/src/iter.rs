//! Verified traversal of a range of blocks along a chain.
//!
//! The store records only child-to-parent links, so the ancestor path from a
//! start hash to an end hash is discovered by walking backward from the end
//! before it is presented forward. The whole range is validated before any
//! block is handed out: a caller never observes a partial, later-invalidated
//! range.

use vstd::prelude::*;
use vstd::seq_lib::*;
use vstd::set_lib::lemma_len_subset;
use crate::block::Block;
use crate::block::HeaderHash;
use crate::error::Error;
use crate::store::Store;

verus! {

/// `path` lists header hashes in ancestor-to-descendant order such that each
/// listed block is in the store and its parent link points at the previous
/// entry, the first entry's parent being `from`.
pub open spec fn is_chain(store: Store, from: HeaderHash, path: Seq<HeaderHash>) -> bool {
    forall|i: int|
        0 <= i < path.len() ==> {
            let b = store.block_at(#[trigger] path[i]);
            &&& b is Some
            &&& b.unwrap().parent == (if i == 0 {
                from
            } else {
                path[i - 1]
            })
        }
}

/// One backward step at a time from the block `cur`, accumulating the forward
/// path, with `fuel` bounding the depth so that malformed or cyclic parent
/// data cannot make the walk spin forever.
pub open spec fn spec_walk(
    store: Store,
    from: HeaderHash,
    to: HeaderHash,
    cur: Block,
    fuel: nat,
) -> Result<Seq<HeaderHash>, Error>
    decreases fuel,
{
    if cur.parent == from {
        Ok(seq![cur.hash])
    } else {
        match store.block_at(cur.parent) {
            Option::None => Err(Error::UnknownBlock(cur.parent)),
            Option::Some(pb) => if fuel == 0 {
                Err(Error::NoPathFound(from, to))
            } else {
                match spec_walk(store, from, to, pb, (fuel - 1) as nat) {
                    Ok(p) => Ok(p.push(cur.hash)),
                    Err(e) => Err(e),
                }
            },
        }
    }
}

/// The outcome of resolving the range `from..to`: the forward path of hashes
/// (excluding `from`, including `to`), or the error the resolution stops
/// with. An equal pair of endpoints is the empty, valid range.
pub open spec fn spec_range(store: Store, from: HeaderHash, to: HeaderHash) -> Result<
    Seq<HeaderHash>,
    Error,
> {
    if from == to {
        Ok(Seq::empty())
    } else {
        match store.block_at(to) {
            Option::None => Err(Error::UnknownBlock(to)),
            Option::Some(b) => spec_walk(store, from, to, b, store.blocks().len()),
        }
    }
}

/// Walks backward from `cur` (the block of the range's end hash) until the
/// parent link reaches `from`, returning the forward path.
fn walk_back(store: &Store, from: HeaderHash, to: HeaderHash, cur: Block, fuel: usize) -> (r:
    Result<Vec<HeaderHash>, Error>)
    ensures
        match r {
            Ok(v) => spec_walk(*store, from, to, cur, fuel as nat) == Ok::<
                Seq<HeaderHash>,
                Error,
            >(v@),
            Err(e) => spec_walk(*store, from, to, cur, fuel as nat) == Err::<
                Seq<HeaderHash>,
                Error,
            >(e),
        },
    decreases fuel,
{
    if cur.parent == from {
        let mut v: Vec<HeaderHash> = Vec::new();
        v.push(cur.hash);
        proof {
            assert(v@ =~= seq![cur.hash]);
        }
        Ok(v)
    } else {
        match store.get_block_by_hash(cur.parent) {
            Option::None => Err(Error::UnknownBlock(cur.parent)),
            Option::Some(pb) => {
                if fuel == 0 {
                    Err(Error::NoPathFound(from, to))
                } else {
                    match walk_back(store, from, to, pb, fuel - 1) {
                        Ok(mut v) => {
                            v.push(cur.hash);
                            Ok(v)
                        },
                        Err(e) => Err(e),
                    }
                }
            },
        }
    }
}

/// An ordered range of blocks between two validated hashes.
///
/// The whole ancestor path is validated at construction; advancing then only
/// fetches the next block of the path from the store. The sequence is finite
/// and not restartable: a fresh construction is required to re-walk it.
pub struct Iter {
    path: Vec<HeaderHash>,
    pos: usize,
}

impl Iter {
    /// The validated forward path: every hash this range yields, in
    /// ancestor-to-descendant order.
    pub closed spec fn spec_path(self) -> Seq<HeaderHash> {
        self.path@
    }

    /// How many entries of the path have been yielded already.
    pub closed spec fn spec_pos(self) -> int {
        self.pos as int
    }

    /// The position never runs past the path.
    pub open spec fn wf(self) -> bool {
        0 <= self.spec_pos() <= self.spec_path().len()
    }

    /// The hashes not yet yielded, in order.
    pub open spec fn remaining(self) -> Seq<HeaderHash> {
        self.spec_path().skip(self.spec_pos())
    }

    /// Resolve the range `from..to` against the store: verify a backward
    /// path along parent links from `to` to `from` and position the range at
    /// its start. Equal endpoints give an empty range, never an error; an
    /// endpoint or parent link absent from the store gives `UnknownBlock`; a
    /// walk that runs past the store's block count without reaching `from`
    /// gives `NoPathFound`.
    pub fn new(store: &Store, from: HeaderHash, to: HeaderHash) -> (r: Result<Iter, Error>)
        ensures
            match r {
                Ok(it) => spec_range(*store, from, to) == Ok::<Seq<HeaderHash>, Error>(
                    it.spec_path(),
                ) && it.spec_pos() == 0 && it.wf(),
                Err(e) => spec_range(*store, from, to) == Err::<Seq<HeaderHash>, Error>(e),
            },
    {
        if from == to {
            let v: Vec<HeaderHash> = Vec::new();
            proof {
                assert(v@ =~= Seq::<HeaderHash>::empty());
            }
            Ok(Iter { path: v, pos: 0 })
        } else {
            match store.get_block_by_hash(to) {
                Option::None => Err(Error::UnknownBlock(to)),
                Option::Some(b) => match walk_back(store, from, to, b, store.block_count()) {
                    Ok(v) => Ok(Iter { path: v, pos: 0 }),
                    Err(e) => Err(e),
                },
            }
        }
    }

    /// Number of blocks still to be yielded.
    pub fn remaining_count(&self) -> (r: usize)
        requires
            self.wf(),
        ensures
            r == self.remaining().len(),
    {
        self.path.len() - self.pos
    }

    /// Yield the next block of the range in ancestor-to-descendant order, or
    /// `None` once the range is exhausted. A fetch failure here means the
    /// store lost a block that the path was validated against — a consistency
    /// violation reported as `StorageCorruption`, with the position left
    /// unchanged.
    pub fn next(&mut self, store: &Store) -> (r: Result<Option<Block>, Error>)
        requires
            old(self).wf(),
        ensures
            final(self).spec_path() == old(self).spec_path(),
            final(self).wf(),
            match r {
                Ok(out) => match out {
                    Option::Some(b) => {
                        &&& old(self).spec_pos() < old(self).spec_path().len()
                        &&& store.block_at(old(self).spec_path()[old(self).spec_pos()]) == Some(b)
                        &&& final(self).spec_pos() == old(self).spec_pos() + 1
                    },
                    Option::None => {
                        &&& old(self).spec_pos() == old(self).spec_path().len()
                        &&& final(self).spec_pos() == old(self).spec_pos()
                    },
                },
                Err(e) => {
                    &&& e == Error::StorageCorruption
                    &&& old(self).spec_pos() < old(self).spec_path().len()
                    &&& store.block_at(old(self).spec_path()[old(self).spec_pos()]) is None
                    &&& final(self).spec_pos() == old(self).spec_pos()
                },
            },
    {
        if self.pos >= self.path.len() {
            Ok(None)
        } else {
            let h = self.path[self.pos];
            match store.get_block_by_hash(h) {
                Option::None => Err(Error::StorageCorruption),
                Option::Some(b) => {
                    self.pos = self.pos + 1;
                    Ok(Some(b))
                },
            }
        }
    }
}

/// Every stored block's parent is itself stored: no parent link dangles.
pub open spec fn parent_closed(store: Store) -> bool {
    forall|h: u64|
        store.blocks().contains_key(h) ==> store.block_at(
            (#[trigger] store.blocks()[h]).parent,
        ) is Some
}

/// A range whose two endpoints are equal resolves to zero elements for any
/// hash, stored or not — an empty but valid range, never an error.
pub proof fn lemma_empty_range(store: Store, h: HeaderHash)
    ensures
        spec_range(store, h, h) == Ok::<Seq<HeaderHash>, Error>(Seq::empty()),
{
}

/// A range whose end hash is absent from the store fails with `UnknownBlock`
/// of exactly that hash, before anything could be yielded.
pub proof fn lemma_missing_endpoint(store: Store, from: HeaderHash, to: HeaderHash)
    requires
        from != to,
        store.block_at(to) is None,
    ensures
        spec_range(store, from, to) == Err::<Seq<HeaderHash>, Error>(Error::UnknownBlock(to)),
{
}

proof fn lemma_walk_sound(store: Store, from: HeaderHash, to: HeaderHash, cur: Block, fuel: nat)
    requires
        store.wf(),
        store.block_at(cur.hash) == Some(cur),
        spec_walk(store, from, to, cur, fuel) is Ok,
    ensures
        ({
            let p = spec_walk(store, from, to, cur, fuel).unwrap();
            &&& is_chain(store, from, p)
            &&& p.len() > 0
            &&& p.last() == cur.hash
        }),
    decreases fuel,
{
    let p = spec_walk(store, from, to, cur, fuel).unwrap();
    if cur.parent == from {
        assert(p =~= seq![cur.hash]);
        assert(p[0] == cur.hash);
        assert(is_chain(store, from, p));
    } else {
        let pb = store.block_at(cur.parent).unwrap();
        assert(pb.hash == cur.parent);
        assert(store.block_at(pb.hash) == Some(pb));
        assert(fuel > 0);
        lemma_walk_sound(store, from, to, pb, (fuel - 1) as nat);
        let q = spec_walk(store, from, to, pb, (fuel - 1) as nat).unwrap();
        assert(p =~= q.push(cur.hash));
        assert forall|i: int| 0 <= i < p.len() implies {
            let b = store.block_at(#[trigger] p[i]);
            &&& b is Some
            &&& b.unwrap().parent == (if i == 0 {
                from
            } else {
                p[i - 1]
            })
        } by {
            if i < q.len() {
                assert(p[i] == q[i]);
            } else {
                assert(p[i] == cur.hash);
                assert(p[i - 1] == q.last());
            }
        }
    }
}

/// Resolving a range never hands back a partial or disconnected path: a
/// successful resolution is a valid chain of parent links from `from`, it
/// ends exactly at `to`, and it is empty precisely when the endpoints are
/// equal.
pub proof fn lemma_range_sound(store: Store, from: HeaderHash, to: HeaderHash)
    requires
        store.wf(),
        spec_range(store, from, to) is Ok,
    ensures
        ({
            let p = spec_range(store, from, to).unwrap();
            &&& is_chain(store, from, p)
            &&& (p.len() == 0 <==> from == to)
            &&& (p.len() > 0 ==> p.last() == to)
        }),
{
    if from != to {
        let b = store.block_at(to).unwrap();
        assert(b.hash == to);
        lemma_walk_sound(store, from, to, b, store.blocks().len());
    }
}

proof fn lemma_walk_complete(
    store: Store,
    from: HeaderHash,
    to: HeaderHash,
    p: Seq<HeaderHash>,
    fuel: nat,
)
    requires
        store.wf(),
        is_chain(store, from, p),
        p.len() > 0,
        p.no_duplicates(),
        !p.contains(from),
        fuel + 1 >= p.len(),
    ensures
        spec_walk(store, from, to, store.block_at(p.last()).unwrap(), fuel) == Ok::<
            Seq<HeaderHash>,
            Error,
        >(p),
    decreases p.len(),
{
    let last = p.len() - 1;
    assert(store.block_at(p[last]) is Some);
    let cur = store.block_at(p.last()).unwrap();
    assert(cur.hash == p.last());
    if p.len() == 1 {
        assert(cur.parent == from);
        assert(p =~= seq![cur.hash]);
    } else {
        assert(cur.parent == p[last - 1]);
        if cur.parent == from {
            assert(p.contains(from));
        }
        assert(cur.parent != from);
        assert(store.block_at(p[last - 1]) is Some);
        let pb = store.block_at(cur.parent).unwrap();
        let q = p.drop_last();
        assert(q.last() == p[last - 1]);
        assert forall|i: int| 0 <= i < q.len() implies {
            let b = store.block_at(#[trigger] q[i]);
            &&& b is Some
            &&& b.unwrap().parent == (if i == 0 {
                from
            } else {
                q[i - 1]
            })
        } by {
            assert(q[i] == p[i]);
            if i > 0 {
                assert(q[i - 1] == p[i - 1]);
            }
        }
        assert(q.no_duplicates());
        if q.contains(from) {
            let w = choose|i: int| 0 <= i < q.len() && q[i] == from;
            assert(p[w] == from);
            assert(p.contains(from));
        }
        lemma_walk_complete(store, from, to, q, (fuel - 1) as nat);
        assert(q.push(cur.hash) =~= p);
    }
}

/// Completeness of range resolution: a valid simple chain of parent links
/// from `from` that ends at `to` is resolved exactly, as that path and no
/// other, with no error.
pub proof fn lemma_range_complete(
    store: Store,
    from: HeaderHash,
    to: HeaderHash,
    p: Seq<HeaderHash>,
)
    requires
        store.wf(),
        is_chain(store, from, p),
        p.len() > 0,
        p.last() == to,
        p.no_duplicates(),
        !p.contains(from),
    ensures
        spec_range(store, from, to) == Ok::<Seq<HeaderHash>, Error>(p),
{
    let last = p.len() - 1;
    if from == to {
        assert(p[last] == from);
        assert(p.contains(from));
    }
    assert(from != to);
    assert(store.block_at(p[last]) is Some);
    assert(store.block_at(to).unwrap() == store.block_at(p.last()).unwrap());
    let vals = p.map_values(|h: HeaderHash| h.value);
    assert forall|i: int, j: int| 0 <= i < vals.len() && 0 <= j < vals.len() && i != j implies vals[i]
        != vals[j] by {
        assert(p[i] != p[j]);
    }
    vals.unique_seq_to_set();
    assert forall|v: u64| vals.to_set().contains(v) implies store.blocks().dom().contains(v) by {
        let i = choose|i: int| 0 <= i < vals.len() && vals[i] == v;
        assert(store.block_at(p[i]) is Some);
    }
    lemma_len_subset(vals.to_set(), store.blocks().dom());
    assert(store.blocks().len() >= p.len());
    lemma_walk_complete(store, from, to, p, store.blocks().len());
}

/// A range between hashes that no chain of parent links connects never
/// resolves: where `to` is not a descendant of `from`, the outcome is an
/// error, never a silently partial sequence.
pub proof fn lemma_range_disconnected(store: Store, from: HeaderHash, to: HeaderHash)
    requires
        store.wf(),
        from != to,
        forall|p: Seq<HeaderHash>|
            !(#[trigger] is_chain(store, from, p) && p.len() > 0 && p.last() == to),
    ensures
        spec_range(store, from, to) is Err,
{
    if spec_range(store, from, to) is Ok {
        lemma_range_sound(store, from, to);
        let p = spec_range(store, from, to).unwrap();
        assert(!(is_chain(store, from, p) && p.len() > 0 && p.last() == to));
    }
}

proof fn lemma_walk_no_path(store: Store, from: HeaderHash, to: HeaderHash, cur: Block, fuel: nat)
    requires
        store.wf(),
        parent_closed(store),
        store.block_at(cur.hash) == Some(cur),
        forall|p: Seq<HeaderHash>|
            !(#[trigger] is_chain(store, from, p) && p.len() > 0 && p.last() == cur.hash),
    ensures
        spec_walk(store, from, to, cur, fuel) == Err::<Seq<HeaderHash>, Error>(
            Error::NoPathFound(from, to),
        ),
    decreases fuel,
{
    if cur.parent == from {
        let p = seq![cur.hash];
        assert(p[0] == cur.hash);
        assert(is_chain(store, from, p));
        assert(false);
    } else {
        assert(store.blocks().contains_key(cur.hash.value));
        assert(store.blocks()[cur.hash.value] == cur);
        assert(store.block_at(cur.parent) is Some);
        let pb = store.block_at(cur.parent).unwrap();
        assert(pb.hash == cur.parent);
        if fuel > 0 {
            assert forall|q: Seq<HeaderHash>|
                !(#[trigger] is_chain(store, from, q) && q.len() > 0 && q.last()
                    == pb.hash) by {
                if is_chain(store, from, q) && q.len() > 0 && q.last() == pb.hash {
                    let q2 = q.push(cur.hash);
                    assert forall|i: int| 0 <= i < q2.len() implies {
                        let b = store.block_at(#[trigger] q2[i]);
                        &&& b is Some
                        &&& b.unwrap().parent == (if i == 0 {
                            from
                        } else {
                            q2[i - 1]
                        })
                    } by {
                        if i < q.len() {
                            assert(q2[i] == q[i]);
                            if i > 0 {
                                assert(q2[i - 1] == q[i - 1]);
                            }
                        } else {
                            assert(q2[i] == cur.hash);
                            assert(q2[i - 1] == q.last());
                        }
                    }
                    assert(q2.last() == cur.hash);
                    assert(!(is_chain(store, from, q2) && q2.len() > 0 && q2.last() == cur.hash));
                }
            }
            lemma_walk_no_path(store, from, to, pb, (fuel - 1) as nat);
        }
    }
}

/// Where every stored parent link resolves, a range between hashes that no
/// chain connects fails with `NoPathFound` of exactly the two endpoints: the
/// backward walk exhausts its depth bound instead of dangling.
pub proof fn lemma_range_no_path(store: Store, from: HeaderHash, to: HeaderHash)
    requires
        store.wf(),
        parent_closed(store),
        from != to,
        store.block_at(to) is Some,
        forall|p: Seq<HeaderHash>|
            !(#[trigger] is_chain(store, from, p) && p.len() > 0 && p.last() == to),
    ensures
        spec_range(store, from, to) == Err::<Seq<HeaderHash>, Error>(Error::NoPathFound(from, to)),
{
    let b = store.block_at(to).unwrap();
    assert(b.hash == to);
    lemma_walk_no_path(store, from, to, b, store.blocks().len());
}

} // verus!
