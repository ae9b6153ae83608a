use blockchain::Block;
use blockchain::BlockDate;
use blockchain::BlockRef;
use blockchain::Blockchain;
use blockchain::Config;
use blockchain::Error;
use blockchain::HeaderHash;
use blockchain::Store;

fn h(value: u64) -> HeaderHash {
    HeaderHash { value }
}

fn basic_config() -> Config {
    Config::new(h(1), h(0), 0)
}

fn genesis_ref() -> BlockRef {
    BlockRef { hash: h(1), parent: h(0), date: BlockDate::Genesis(0) }
}

#[test]
fn tip_default_on_fresh_chain() {
    let bc = Blockchain::new(String::from("test"), basic_config());
    let tip = bc.load_tip().unwrap();
    assert_eq!(tip, (genesis_ref(), true));
}

#[test]
fn tip_default_without_any_tag() {
    let bc = Blockchain::load(String::from("test"), basic_config(), Store::new());
    let tip = bc.load_tip().unwrap();
    assert_eq!(tip, (genesis_ref(), true));
}

#[test]
fn tip_round_trip_non_genesis() {
    let mut bc = Blockchain::new(String::from("test"), basic_config());
    let b2 = Block { hash: h(2), parent: h(1), date: BlockDate::Normal { epoch: 0, slot: 1 } };
    bc.storage.put_block(b2);
    bc.save_tip(h(2));
    let (tip, is_genesis) = bc.load_tip().unwrap();
    assert_eq!(tip.hash, h(2));
    assert_eq!(tip.parent, h(1));
    assert_eq!(tip.date, BlockDate::Normal { epoch: 0, slot: 1 });
    assert!(!is_genesis);
}

#[test]
fn tip_round_trip_genesis() {
    let mut bc = Blockchain::new(String::from("test"), basic_config());
    let b2 = Block { hash: h(2), parent: h(1), date: BlockDate::Normal { epoch: 0, slot: 1 } };
    bc.storage.put_block(b2);
    bc.save_tip(h(2));
    bc.save_tip(h(1));
    let (tip, is_genesis) = bc.load_tip().unwrap();
    assert_eq!(tip.hash, h(1));
    assert!(is_genesis);
}

#[test]
fn tip_resolution_fails_on_dangling_tag() {
    let mut bc = Blockchain::new(String::from("test"), basic_config());
    bc.save_tip(h(99));
    assert_eq!(bc.load_tip(), Err(Error::StorageCorruption));
}

#[test]
fn peer_tag_lifecycle() {
    let mut bc = Blockchain::new(String::from("test"), basic_config());
    bc.add_peer(String::from("alice"), String::from("tcp://host:1234")).unwrap();
    let tips = bc.load_remote_tips().unwrap();
    assert_eq!(tips.len(), 1);
    assert_eq!(tips[0], (genesis_ref(), true));
    assert_eq!(bc.storage.read_tag("remote/alice"), Some(h(1)));

    bc.remove_peer(String::from("alice"));
    assert_eq!(bc.peers().len(), 0);
    assert_eq!(bc.storage.read_tag("remote/alice"), None);
    assert_eq!(bc.load_remote_tips().unwrap().len(), 0);
}

#[test]
fn duplicate_peer_is_rejected() {
    let mut bc = Blockchain::new(String::from("test"), basic_config());
    bc.add_peer(String::from("alice"), String::from("ep1")).unwrap();
    assert_eq!(bc.add_peer(String::from("alice"), String::from("ep2")), Err(Error::DuplicatePeer));
    assert_eq!(bc.peers().len(), 1);
    assert_eq!(bc.peers()[0].endpoint, String::from("ep1"));
}

#[test]
fn removing_unknown_peer_is_a_no_op() {
    let mut bc = Blockchain::new(String::from("test"), basic_config());
    bc.add_peer(String::from("alice"), String::from("ep1")).unwrap();
    bc.remove_peer(String::from("bob"));
    assert_eq!(bc.peers().len(), 1);
    assert_eq!(bc.peers()[0].name, String::from("alice"));
}

#[test]
fn peers_listed_in_insertion_order() {
    let mut bc = Blockchain::new(String::from("test"), basic_config());
    bc.add_peer(String::from("alice"), String::from("ep1")).unwrap();
    bc.add_peer(String::from("bob"), String::from("ep2")).unwrap();
    bc.add_peer(String::from("carol"), String::from("ep3")).unwrap();
    let names: Vec<&str> = bc.peers().iter().map(|p| p.name.as_str()).collect();
    assert_eq!(names, vec!["alice", "bob", "carol"]);
}

#[test]
fn initial_peers_get_remote_tags_at_genesis() {
    let mut config = basic_config();
    config.peers.push(blockchain::NamedPeer::new(String::from("seed"), String::from("ep0")));
    let bc = Blockchain::new(String::from("test"), config);
    assert_eq!(bc.storage.read_tag("remote/seed"), Some(h(1)));
    let tips = bc.load_remote_tips().unwrap();
    assert_eq!(tips, vec![(genesis_ref(), true)]);
}

#[test]
fn remote_tip_follows_sync_progress() {
    let mut bc = Blockchain::new(String::from("test"), basic_config());
    bc.add_peer(String::from("alice"), String::from("ep1")).unwrap();
    let b2 = Block { hash: h(2), parent: h(1), date: BlockDate::Normal { epoch: 0, slot: 1 } };
    bc.storage.put_block(b2);
    let tag = bc.mk_remote_tag("alice");
    bc.storage.write_hash(tag, h(2));
    let tips = bc.load_remote_tips().unwrap();
    assert_eq!(tips.len(), 1);
    assert_eq!(tips[0].0.hash, h(2));
    assert!(!tips[0].1);
}

#[test]
fn mk_remote_tag_prefixes_the_alias() {
    let bc = Blockchain::new(String::from("test"), basic_config());
    assert_eq!(bc.mk_remote_tag("alice"), String::from("remote/alice"));
}

#[test]
fn reload_after_create_preserves_config_and_tip() {
    let mut config = basic_config();
    config.peers.push(blockchain::NamedPeer::new(String::from("seed"), String::from("ep0")));
    let bc = Blockchain::new(String::from("chain"), config);
    let tip_before = bc.load_tip().unwrap();
    let peers_before: Vec<(String, String)> =
        bc.peers().iter().map(|p| (p.name.clone(), p.endpoint.clone())).collect();

    let persisted = bc.save();
    let reloaded = Blockchain::load(bc.name.clone(), persisted, bc.storage);

    assert_eq!(reloaded.load_tip().unwrap(), tip_before);
    let peers_after: Vec<(String, String)> =
        reloaded.peers().iter().map(|p| (p.name.clone(), p.endpoint.clone())).collect();
    assert_eq!(peers_after, peers_before);
    assert_eq!(reloaded.config.genesis, h(1));
    assert_eq!(reloaded.config.genesis_prev, h(0));
    assert_eq!(reloaded.config.epoch_start, 0);
    assert_eq!(reloaded.name, String::from("chain"));
}

#[test]
fn save_returns_the_current_settings() {
    let mut bc = Blockchain::new(String::from("test"), basic_config());
    bc.add_peer(String::from("alice"), String::from("ep1")).unwrap();
    let saved = bc.save();
    assert_eq!(saved, bc.config);
}

#[test]
fn destroy_hands_back_the_chain_name() {
    let bc = Blockchain::new(String::from("doomed"), basic_config());
    assert_eq!(bc.destroy(), String::from("doomed"));
}

#[test]
fn peer_named_tip_does_not_collide_with_the_local_tip_tag() {
    let mut bc = Blockchain::new(String::from("test"), basic_config());
    bc.add_peer(String::from("tip"), String::from("ep1")).unwrap();
    let b2 = Block { hash: h(2), parent: h(1), date: BlockDate::Normal { epoch: 0, slot: 1 } };
    bc.storage.put_block(b2);
    bc.save_tip(h(2));
    // The peer's tag lives under the reserved prefix, so the local tip moved
    // while the peer's sync pointer still reports genesis.
    assert_eq!(bc.load_tip().unwrap().0.hash, h(2));
    assert_eq!(bc.load_remote_tips().unwrap(), vec![(genesis_ref(), true)]);
    assert_eq!(bc.storage.read_tag("remote/tip"), Some(h(1)));
}
