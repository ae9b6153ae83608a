use blockchain::Block;
use blockchain::BlockDate;
use blockchain::Blockchain;
use blockchain::Config;
use blockchain::Error;
use blockchain::HeaderHash;
use blockchain::Iter;
use blockchain::Store;

fn h(value: u64) -> HeaderHash {
    HeaderHash { value }
}

fn block(hash: u64, parent: u64, slot: u64) -> Block {
    Block { hash: h(hash), parent: h(parent), date: BlockDate::Normal { epoch: 0, slot } }
}

/// A chain G(1) -> B1(2) -> B2(3) -> B3(4) in a fresh manager.
fn chain_of_three() -> Blockchain {
    let mut bc = Blockchain::new(String::from("test"), Config::new(h(1), h(0), 0));
    bc.storage.put_block(block(2, 1, 1));
    bc.storage.put_block(block(3, 2, 2));
    bc.storage.put_block(block(4, 3, 3));
    bc
}

fn drain(mut it: Iter, store: &Store) -> Vec<Block> {
    let mut out = Vec::new();
    loop {
        match it.next(store) {
            Ok(Some(b)) => out.push(b),
            Ok(None) => return out,
            Err(e) => panic!("fetch failed during iteration: {:?}", e),
        }
    }
}

#[test]
fn empty_range_yields_nothing() {
    let bc = chain_of_three();
    let it = bc.iter(h(3), h(3)).unwrap();
    assert_eq!(it.remaining_count(), 0);
    assert_eq!(drain(it, &bc.storage).len(), 0);
}

#[test]
fn empty_range_needs_no_stored_block() {
    let bc = chain_of_three();
    let it = bc.iter(h(77), h(77)).unwrap();
    assert_eq!(drain(it, &bc.storage).len(), 0);
}

#[test]
fn valid_range_yields_blocks_in_chain_order() {
    let bc = chain_of_three();
    let it = bc.iter(h(1), h(4)).unwrap();
    assert_eq!(it.remaining_count(), 3);
    let blocks = drain(it, &bc.storage);
    assert_eq!(blocks, vec![block(2, 1, 1), block(3, 2, 2), block(4, 3, 3)]);
}

#[test]
fn sub_range_excludes_the_start_hash() {
    let bc = chain_of_three();
    let it = bc.iter(h(2), h(4)).unwrap();
    let blocks = drain(it, &bc.storage);
    assert_eq!(blocks, vec![block(3, 2, 2), block(4, 3, 3)]);
}

#[test]
fn exhausted_range_keeps_yielding_nothing() {
    let bc = chain_of_three();
    let mut it = bc.iter(h(3), h(4)).unwrap();
    assert_eq!(it.next(&bc.storage).unwrap(), Some(block(4, 3, 3)));
    assert_eq!(it.next(&bc.storage).unwrap(), None);
    assert_eq!(it.next(&bc.storage).unwrap(), None);
}

#[test]
fn missing_endpoint_fails_with_unknown_block() {
    let bc = chain_of_three();
    match bc.iter(h(1), h(9)) {
        Err(Error::UnknownBlock(missing)) => assert_eq!(missing, h(9)),
        Err(e) => panic!("expected UnknownBlock, got {:?}", e),
        Ok(_) => panic!("expected UnknownBlock, got a range"),
    }
}

#[test]
fn broken_parent_link_fails_with_unknown_block() {
    let mut bc = Blockchain::new(String::from("test"), Config::new(h(1), h(0), 0));
    // D(6) -> C(5) -> E(8), with E absent from the store.
    bc.storage.put_block(block(5, 8, 1));
    bc.storage.put_block(block(6, 5, 2));
    match bc.iter(h(1), h(6)) {
        Err(Error::UnknownBlock(missing)) => assert_eq!(missing, h(8)),
        Err(e) => panic!("expected UnknownBlock, got {:?}", e),
        Ok(_) => panic!("expected UnknownBlock, got a range"),
    }
}

#[test]
fn disconnected_range_fails_with_no_path_found() {
    let mut bc = Blockchain::new(String::from("test"), Config::new(h(1), h(0), 0));
    // Two blocks pointing at each other: every parent link resolves, but no
    // chain from genesis ever reaches them.
    bc.storage.put_block(block(10, 11, 1));
    bc.storage.put_block(block(11, 10, 2));
    match bc.iter(h(1), h(10)) {
        Err(Error::NoPathFound(from, to)) => {
            assert_eq!(from, h(1));
            assert_eq!(to, h(10));
        },
        Err(e) => panic!("expected NoPathFound, got {:?}", e),
        Ok(_) => panic!("expected NoPathFound, got a range"),
    }
}

#[test]
fn reversed_endpoints_fail_rather_than_yield() {
    let bc = chain_of_three();
    // From the tip back down to an ancestor: the walk from h(2) can never
    // reach h(4), and the chain ends at a parent absent from the store.
    match bc.iter(h(4), h(2)) {
        Err(Error::UnknownBlock(missing)) => assert_eq!(missing, h(1)),
        Err(e) => panic!("expected UnknownBlock, got {:?}", e),
        Ok(_) => panic!("expected UnknownBlock, got a range"),
    }
}

#[test]
fn iter_to_tip_walks_up_to_the_saved_tip() {
    let mut bc = chain_of_three();
    bc.save_tip(h(4));
    let it = bc.iter_to_tip(h(1)).unwrap();
    let blocks = drain(it, &bc.storage);
    assert_eq!(blocks, vec![block(2, 1, 1), block(3, 2, 2), block(4, 3, 3)]);
}

#[test]
fn iter_to_tip_of_fresh_chain_is_empty_from_genesis() {
    let bc = Blockchain::new(String::from("test"), Config::new(h(1), h(0), 0));
    let it = bc.iter_to_tip(h(1)).unwrap();
    assert_eq!(it.remaining_count(), 0);
}

#[test]
fn iter_to_tip_surfaces_a_corrupt_tip() {
    let mut bc = chain_of_three();
    bc.save_tip(h(42));
    match bc.iter_to_tip(h(1)) {
        Err(Error::StorageCorruption) => {},
        Err(e) => panic!("expected StorageCorruption, got {:?}", e),
        Ok(_) => panic!("expected StorageCorruption, got a range"),
    }
}

#[test]
fn fetch_against_a_store_missing_the_block_is_corruption() {
    let bc = chain_of_three();
    let mut it = bc.iter(h(1), h(4)).unwrap();
    let empty = Store::new();
    assert_eq!(it.next(&empty), Err(Error::StorageCorruption));
    // The failure leaves the position unchanged: the real store still works.
    assert_eq!(it.next(&bc.storage).unwrap(), Some(block(2, 1, 1)));
}

#[test]
fn fork_siblings_share_no_path() {
    let mut bc = Blockchain::new(String::from("test"), Config::new(h(1), h(0), 0));
    // G(1) with two children B1(2) and C1(3): a fork. The walk from B1 never
    // meets C1; it runs off the stored chain at G's absent parent.
    bc.storage.put_block(block(1, 0, 0));
    bc.storage.put_block(block(2, 1, 1));
    bc.storage.put_block(block(3, 1, 1));
    match bc.iter(h(3), h(2)) {
        Err(Error::UnknownBlock(missing)) => assert_eq!(missing, h(0)),
        Err(e) => panic!("expected UnknownBlock, got {:?}", e),
        Ok(_) => panic!("expected UnknownBlock, got a range"),
    }
}
