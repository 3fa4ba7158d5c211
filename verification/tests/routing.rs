use std::collections::HashMap;

use bytes::Bytes;
use rudis::command::Command;
use rudis::lists::KeyList;
use rudis::merging::sum_counts;
use rudis::pools::{new_capacity, DescriptorPool, Pooled, POOL_LIMIT};
use rudis::presence::ShardedPresenceTable;
use rudis::pubsub::PubSubHub;
use rudis::redirects::SlotState;
use rudis::router::{DelPlan, MgetPlan, MsetPlan, ReplicaPlan, Route, Router};
use rudis::scatter::{
    count_involved, deal, drop_places, empty_places, keep_deleted, write_values, InFlight,
};
use rudis::slots::{
    extract_hash_tag, key_slot, slot_of_checksum, slot_to_shard, target_shard,
    target_shard_and_hash, SLOT_COUNT,
};
use rudis::txlocks::TxLock;

/// A router and the data of all shards.
struct Cluster {
    router: Router,
    stores: Vec<HashMap<Bytes, Bytes>>,
}

impl Cluster {
    fn new(num_shards: usize, port: u16) -> Cluster {
        Cluster {
            router: Router::new(0, num_shards, port),
            stores: vec![HashMap::new(); num_shards],
        }
    }

    fn mset(&mut self, pairs: Vec<(Bytes, Bytes)>) -> Option<usize> {
        match self.router.begin_mset(pairs, false) {
            MsetPlan::Nothing => None,
            MsetPlan::Single(pairs) | MsetPlan::Local(pairs) => {
                self.stores[0].extend(pairs);
                None
            }
            MsetPlan::Scattered { batches, awaited } => {
                for (shard, batch) in batches.into_iter().enumerate() {
                    self.stores[shard].extend(drop_places(batch));
                }
                Some(awaited)
            }
        }
    }

    fn get(&self, shard: usize, key: &Bytes) -> Option<Bytes> {
        self.stores[shard].get(key).cloned()
    }

    fn mget(&self, keys: Vec<Bytes>) -> Vec<Option<Bytes>> {
        match self.router.plan_mget(keys, false) {
            MgetPlan::Nothing => Vec::new(),
            MgetPlan::Single(keys) | MgetPlan::Local(keys) => {
                keys.iter().map(|k| self.get(0, k)).collect()
            }
            MgetPlan::Scattered(plan) => {
                let mut flight = InFlight::new(plan.total, plan.awaited);
                for (shard, batch) in plan.batches.into_iter().enumerate().rev() {
                    let answers: Vec<(usize, Option<Bytes>)> =
                        batch.into_iter().map(|(i, k)| (i, self.get(shard, &k))).collect();
                    if shard == 0 {
                        flight.fill(answers);
                    } else if !answers.is_empty() {
                        flight.settle(Some(answers));
                    }
                }
                assert!(flight.is_complete());
                flight.results
            }
        }
    }

    fn del_keys(&mut self, keys: Vec<Bytes>) -> usize {
        match self.router.plan_del(keys, false) {
            DelPlan::Nothing => 0,
            DelPlan::One(key) => {
                let shard = self.router.target_shard(&key, false);
                self.stores[shard].remove(&key).is_some() as usize
            }
            DelPlan::Single(keys) => {
                keys.iter().filter(|k| self.stores[0].remove(*k).is_some()).count()
            }
            DelPlan::Scattered(plan) => {
                let mut counts = Vec::new();
                for (shard, batch) in plan.batches.into_iter().enumerate() {
                    let keys = drop_places(batch);
                    let flags: Vec<bool> =
                        keys.iter().map(|k| self.stores[shard].remove(k).is_some()).collect();
                    counts.push(keep_deleted(keys, &flags).len());
                }
                sum_counts(&counts)
            }
        }
    }

    fn key_at(&self, prefix: &str, shard: usize) -> Bytes {
        (0..1000)
            .map(|i| Bytes::from(format!("{}{}", prefix, i)))
            .find(|k| self.router.target_shard(k, false) == shard)
            .unwrap()
    }
}

#[test]
fn test_router_mget_mset_fanout() {
    let num_shards = 2;
    let mut cluster = Cluster::new(num_shards, 9999);
    let k_shard0 = cluster.key_at("key_", 0);
    let k_shard1 = cluster.key_at("key_", 1);
    assert_eq!(target_shard(&k_shard0, num_shards, false), 0);
    assert_eq!(target_shard(&k_shard1, num_shards, false), 1);

    let pairs = vec![
        (k_shard0.clone(), Bytes::from("val0")),
        (k_shard1.clone(), Bytes::from("val1")),
    ];
    cluster.mset(pairs);
    assert_eq!(cluster.get(0, &k_shard0), Some(Bytes::from("val0")));

    let missing_key = Bytes::from("missing_key_xyz");
    let keys = vec![
        k_shard1.clone(),
        missing_key.clone(),
        k_shard0.clone(),
        k_shard1.clone(),
    ];
    let values = cluster.mget(keys);
    assert_eq!(values.len(), 4);
    assert_eq!(values[0], Some(Bytes::from("val1")));
    assert_eq!(values[1], None);
    assert_eq!(values[2], Some(Bytes::from("val0")));
    assert_eq!(values[3], Some(Bytes::from("val1")));
    assert_eq!(cluster.get(1, &k_shard1), Some(Bytes::from("val1")));
}

#[test]
fn test_router_mget_all_local_fast_path() {
    let mut cluster = Cluster::new(1, 9999);
    let pairs = vec![
        (Bytes::from("local_k1"), Bytes::from("val1")),
        (Bytes::from("local_k2"), Bytes::from("val2")),
    ];
    assert_eq!(cluster.mset(pairs), None);

    let keys = vec![
        Bytes::from("local_k1"),
        Bytes::from("local_missing"),
        Bytes::from("local_k2"),
    ];
    let values = cluster.mget(keys);
    assert_eq!(values.len(), 3);
    assert_eq!(values[0], Some(Bytes::from("val1")));
    assert_eq!(values[1], None);
    assert_eq!(values[2], Some(Bytes::from("val2")));
}

#[test]
fn test_mget_single_pass_and_bitmask_fanout() {
    let mut cluster = Cluster::new(2, 9999);
    let k0 = cluster.key_at("key_", 0);
    let k1 = cluster.key_at("key_", 1);
    let pairs = vec![
        (k0.clone(), Bytes::from("v0")),
        (k1.clone(), Bytes::from("v1")),
    ];
    cluster.mset(pairs);

    let keys = vec![k0.clone(), Bytes::from("nonexistent"), k1.clone()];
    let values = cluster.mget(keys);
    assert_eq!(values.len(), 3);
    assert_eq!(values[0], Some(Bytes::from("v0")));
    assert_eq!(values[1], None);
    assert_eq!(values[2], Some(Bytes::from("v1")));
}

#[test]
fn test_mget_user_space_fast_harvest_try_recv() {
    let mut cluster = Cluster::new(2, 9998);
    let k0 = cluster.key_at("h_", 0);
    let k1 = cluster.key_at("h_", 1);
    cluster.stores[1].insert(k1.clone(), Bytes::from("remote_harvest_val"));
    cluster.stores[0].insert(k0.clone(), Bytes::from("local_harvest_val"));
    let values = cluster.mget(vec![k0, k1]);
    assert_eq!(values.len(), 2);
    assert!(values[0].is_some());
    assert!(values[1].is_some());
}

#[test]
fn test_router_del_keys_cross_shard_fanout() {
    let mut cluster = Cluster::new(2, 9997);
    let k0 = cluster.key_at("del_k_", 0);
    let k1 = cluster.key_at("del_k_", 1);
    cluster.stores[0].insert(k0.clone(), Bytes::from("val0"));
    cluster.mset(vec![(k1.clone(), Bytes::from("val1"))]);
    assert!(cluster.get(0, &k0).is_some());
    assert!(cluster.get(1, &k1).is_some());

    // Both keys, and one that is not there
    let deleted = cluster.del_keys(vec![k0.clone(), k1.clone(), Bytes::from("missing")]);
    assert_eq!(deleted, 2);
    assert!(cluster.get(0, &k0).is_none());
    assert!(cluster.get(1, &k1).is_none());
}

#[test]
fn test_descriptor_pool_retention() {
    let num_shards = 4;
    let mut mget_pool: DescriptorPool<u32> = DescriptorPool::new();
    for item in [1u32, 2] {
        let idle = vec![true; mget_pool.entries.len()];
        let entry = mget_pool.acquire(8, num_shards, &idle).unwrap_or(Pooled {
            item,
            results: new_capacity(8),
            lanes: num_shards,
        });
        mget_pool.release(entry);
    }
    assert_eq!(mget_pool.entries.len(), 1);
    assert_eq!(mget_pool.entries[0].item, 1);

    let mut mset_pool: DescriptorPool<u32> = DescriptorPool::new();
    for item in [1u32, 2] {
        let idle = vec![true; mset_pool.entries.len()];
        let entry = mset_pool.acquire(0, num_shards, &idle).unwrap_or(Pooled {
            item,
            results: 0,
            lanes: num_shards,
        });
        mset_pool.release(entry);
    }
    assert_eq!(mset_pool.entries.len(), 1);
}

#[test]
fn test_begin_mget_mset_dispatch_without_blocking() {
    let cluster = Cluster::new(4, 9997);
    let router = &cluster.router;
    let local_key = cluster.key_at("split_k_", 0);
    let remote_key = (0..1000)
        .map(|i| Bytes::from(format!("split_k_{i}")))
        .find(|k| router.target_shard(k, false) != 0)
        .expect("no key hashed to a peer shard");

    // All keys local: nothing is in flight, and the reply can be written.
    let mut out = Vec::new();
    match router.begin_mget_resp(vec![local_key.clone()], false, &mut out) {
        MgetPlan::Local(keys) => {
            assert_eq!(keys, vec![local_key.clone()]);
            write_values(&vec![Some(Bytes::from_static(b"v1"))], &mut out);
        }
        _ => panic!("a local key needs no peer"),
    }
    assert_eq!(out, b"*1\r\n$2\r\nv1\r\n".to_vec());

    // Cross-shard: one shard is pending, and nothing is written.
    let mut out = Vec::new();
    match router.begin_mget_resp(vec![local_key, remote_key.clone()], false, &mut out) {
        MgetPlan::Scattered(plan) => {
            assert!(out.is_empty());
            assert_eq!(plan.awaited, 1);
            assert_eq!(plan.total, 2);
        }
        _ => panic!("cross-shard mget must yield an in-flight handle"),
    }

    // MSET dispatches the same way.
    match router.begin_mset(vec![(remote_key, Bytes::from_static(b"v2"))], false) {
        MsetPlan::Scattered { awaited, .. } => assert_eq!(awaited, 1),
        _ => panic!("cross-shard mset must yield an in-flight handle"),
    }
}

#[test]
fn test_dynamic_slot_routing_and_presence_table_multi_word() {
    let num_shards = 4;
    let mut router = Router::new(0, num_shards, 9995);
    router.cluster_enabled = true;

    let key = b"my_cluster_key";
    let slot = key_slot(key);
    let default_target = router.target_shard(key, false);
    assert_eq!(default_target, router.target_shard_for_slot(slot));

    // Reassign slot owner dynamically (as in cluster migration)
    let new_owner = (default_target + 1) % num_shards;
    router.set_slot_owner(slot, new_owner);
    assert_eq!(router.target_shard(key, false), new_owner);
    assert_eq!(router.target_shard_for_slot(slot), new_owner);
    let (dyn_target, _) = router.target_shard_and_hash(key, false);
    assert_eq!(dyn_target, new_owner);

    // Multi-word presence table (>64 shards)
    let mut presence = ShardedPresenceTable::new();
    presence.add_subscriber(100, b"news");
    assert!(presence.is_shard_interested(100, b"news"));
    assert!(!presence.is_shard_interested(101, b"news"));
    presence.remove_subscriber(100, b"news");
    assert!(!presence.is_shard_interested(100, b"news"));
}

#[test]
fn test_router_mget_mset_reactive_await_clean_harvest() {
    let mut cluster = Cluster::new(2, 9995);
    let k0 = cluster.key_at("react_k_", 0);
    let k1 = cluster.key_at("react_k_", 1);
    cluster.mset(vec![
        (k0.clone(), Bytes::from("val_k0")),
        (k1.clone(), Bytes::from("val_k1")),
    ]);
    let res = cluster.mget(vec![k0, k1]);
    assert_eq!(res.len(), 2);
    assert_eq!(res[0], Some(Bytes::from("val_k0")));
    assert_eq!(res[1], Some(Bytes::from("val_k1")));
}

#[test]
fn test_router_json_mget_cross_shard_fanout() {
    let mut cluster = Cluster::new(2, 9996);
    let k0 = cluster.key_at("jmget_k_", 0);
    let k1 = cluster.key_at("jmget_k_", 1);
    // What the document `{"score":100}` holds under `$.score`.
    cluster.stores[0].insert(k0.clone(), Bytes::from("100"));
    let res = cluster.mget(vec![k0, k1, Bytes::from("nonexistent")]);
    assert_eq!(res.len(), 3);
    assert_eq!(res[0], Some(Bytes::from("100")));
    assert_eq!(res[1], None);
    assert_eq!(res[2], None);
}

#[test]
fn reads_give_the_last_value_written() {
    let mut cluster = Cluster::new(3, 7000);
    let keys: Vec<Bytes> = (0..3).map(|s| cluster.key_at("k", s)).collect();
    let old = cluster.key_at("old", 1);
    cluster.mset(vec![(old.clone(), Bytes::from("kept"))]);
    let mut pairs: Vec<(Bytes, Bytes)> =
        keys.iter().map(|k| (k.clone(), Bytes::from("first"))).collect();
    pairs.push((keys[1].clone(), Bytes::from("second")));
    cluster.mset(pairs);
    let asked = vec![old, keys[2].clone(), keys[1].clone(), keys[0].clone(), keys[1].clone()];
    let values: Vec<Option<Bytes>> = ["kept", "first", "second", "first", "second"]
        .iter()
        .map(|v| Some(Bytes::from(*v)))
        .collect();
    assert_eq!(cluster.mget(asked), values);
}

#[test]
fn deletions_count_distinct_keys_that_were_there() {
    let mut cluster = Cluster::new(3, 7000);
    let keys: Vec<Bytes> = (0..3).map(|s| cluster.key_at("k", s)).collect();
    let other = cluster.key_at("other", 2);
    let absent = cluster.key_at("absent", 1);
    for k in keys.iter().chain(Some(&other)) {
        cluster.mset(vec![(k.clone(), Bytes::from("v"))]);
    }
    assert_eq!(cluster.del_keys(Vec::new()), 0);
    let asked = vec![keys[2].clone(), absent, keys[0].clone(), keys[2].clone()];
    assert_eq!(cluster.del_keys(asked), 2);
    let left = cluster.mget(vec![keys[0].clone(), keys[1].clone(), keys[2].clone(), other]);
    assert_eq!(left, vec![None, Some(Bytes::from("v")), None, Some(Bytes::from("v"))]);
    assert_eq!(cluster.del_keys(vec![keys[1].clone()]), 1);
    assert_eq!(cluster.del_keys(vec![keys[1].clone()]), 0);
}

#[test]
fn a_single_key_is_deleted_at_its_owner() {
    let mut router = Router::new(0, 4, 7000);
    let slot = key_slot(b"foo");
    let owner = slot_to_shard(slot, 4);
    assert!(matches!(router.route_del(b"foo", true), Route::At(s) if s == owner));
    router.set_slot_owner(slot, 1);
    assert!(matches!(router.route_del(b"foo", true), Route::At(1)));
    router.set_slot_owner(slot, 0);
    assert!(matches!(router.route_del(b"foo", true), Route::Here));
    assert_eq!(router.target_shard_and_hash(b"foo", true).0, 0);
    assert!(matches!(router.get_slot_state(slot), SlotState::Stable));
}

#[test]
fn slots_follow_the_checksum_of_the_tag() {
    // The slots that Redis documents for these keys.
    assert_eq!(key_slot(b"123456789"), 12739);
    assert_eq!(key_slot(b"foo"), 12182);
    assert_eq!(key_slot(b"somekey"), 11058);
    assert_eq!(key_slot(b"foo{hash_tag}"), 2515);
    assert_eq!(key_slot(b"bar{hash_tag}"), 2515);
    assert_eq!(slot_of_checksum(0x31c3), 12739);
    assert_eq!(slot_of_checksum(u16::MAX), SLOT_COUNT - 1);
}

#[test]
fn tags_stand_between_the_first_braces() {
    assert_eq!(extract_hash_tag(b"{user1000}.following"), b"user1000");
    assert_eq!(extract_hash_tag(b"a{b}c{d}"), b"b");
    assert_eq!(extract_hash_tag(b"foo{}{bar}"), b"foo{}{bar}");
    assert_eq!(extract_hash_tag(b"foo{{bar}}zap"), b"{bar");
    assert_eq!(extract_hash_tag(b"no tag"), b"no tag");
    assert_eq!(extract_hash_tag(b"open{"), b"open{");
    assert_eq!(
        target_shard(b"{user1000}.following", 5, true),
        target_shard(b"{user1000}.followers", 5, true)
    );
}

#[test]
fn slots_are_spread_evenly() {
    assert_eq!(slot_to_shard(0, 3), 0);
    assert_eq!(slot_to_shard(16383, 3), 2);
    let mut seen = [0usize; 3];
    for slot in 0..SLOT_COUNT {
        seen[slot_to_shard(slot, 3)] += 1;
    }
    assert_eq!(seen, [5462, 5461, 5461]);
    assert_eq!(target_shard(b"anything", 1, false), 0);
}

#[test]
fn the_hash_decides_without_slots() {
    let (shard, hash) = target_shard_and_hash(b"a", 4, false);
    assert_eq!(hash, 0xaf63dc4c8601ec8c);
    assert_eq!(shard, (hash % 4) as usize);
    assert_eq!(target_shard(b"a", 4, false), shard);
}

#[test]
fn keys_without_a_moved_slot_stay() {
    let mut router = Router::new(1, 3, 7000);
    router.cluster_enabled = true;
    let moved = key_slot(b"foo");
    let before = router.target_shard(b"somekey", false);
    let peers = router.set_slot_owner(moved, 0);
    assert_eq!(peers, vec![0, 2]);
    assert_eq!(router.target_shard(b"foo", false), 0);
    assert_eq!(router.target_shard(b"somekey", false), before);
    assert!(matches!(router.route(b"foo", false), Route::At(0)));
}

#[test]
fn redirections_say_where_a_slot_went() {
    let mut router = Router::new(0, 2, 7000);
    assert!(router.check_slot_redirection(5, false, false).is_ok());

    router.set_slot_state(5, SlotState::Moved("10.0.0.1:7001".to_string()));
    assert_eq!(
        router.check_slot_redirection(5, true, false),
        Err("-MOVED 5 10.0.0.1:7001\r\n".to_string())
    );
    router.set_slot_state(5, SlotState::Migrating("10.0.0.1:7001".to_string()));
    assert!(router.check_slot_redirection(5, true, false).is_ok());
    assert_eq!(
        router.check_slot_redirection(5, false, false),
        Err("-ASK 5 10.0.0.1:7001\r\n".to_string())
    );
    router.set_slot_state(5, SlotState::Importing("10.0.0.2:7002".to_string()));
    assert!(router.check_slot_redirection(5, false, true).is_ok());
    assert_eq!(
        router.check_slot_redirection(5, false, false),
        Err("-MOVED 5 10.0.0.2:7002\r\n".to_string())
    );
    assert!(matches!(router.get_slot_state(5), SlotState::Importing(_)));
    router.settle_slots(&[4, 5]);
    assert!(matches!(router.get_slot_state(5), SlotState::Stable));
    router.set_slot_state(9, SlotState::Moved("x".to_string()));
    router.settle_slot_ranges(&[(1, 3), (7, 9)]);
    assert!(matches!(router.get_slot_state(9), SlotState::Stable));
}

#[test]
fn nothing_to_fetch_is_an_empty_array() {
    let router = Router::new(0, 2, 7000);
    let mut out = Vec::new();
    assert!(matches!(router.begin_mget_resp(Vec::new(), false, &mut out), MgetPlan::Nothing));
    assert_eq!(out, b"*0\r\n");
    assert!(matches!(router.begin_mset(Vec::new(), false), MsetPlan::Nothing));
    assert!(matches!(router.plan_del(Vec::new(), false), DelPlan::Nothing));
    assert!(matches!(
        router.plan_del(vec![Bytes::from_static(b"one")], false),
        DelPlan::One(_)
    ));
    let single = Router::new(0, 1, 7000);
    assert!(matches!(
        single.plan_mget(vec![Bytes::from_static(b"one")], false),
        MgetPlan::Single(_)
    ));
}

#[test]
fn items_are_dealt_once_and_come_back_in_place() {
    let items = vec!['a', 'b', 'c', 'd'];
    let dealt = deal(items, &vec![2, 0, 2, 1], 3);
    assert_eq!(dealt, vec![vec![(1, 'b')], vec![(3, 'd')], vec![(0, 'a'), (2, 'c')]]);
    assert_eq!(count_involved(&dealt, 0), 2);
    assert_eq!(count_involved(&dealt, 7), 3);

    let mut flight: InFlight<u32> = InFlight::new(4, 2);
    flight.fill(vec![(1, Some(98))]);
    assert!(!flight.is_complete());
    flight.settle(Some(vec![(0, Some(97)), (2, None)]));
    flight.settle(None);
    assert!(flight.is_complete());
    flight.settle(None);
    assert!(flight.is_complete());
    assert_eq!(flight.results, vec![Some(97), Some(98), None, None]);
    let none: Vec<Option<u8>> = empty_places(3);
    assert_eq!(none, vec![None, None, None]);
}

#[test]
fn commands_of_the_stream_go_to_their_shards() {
    let router = Router::new(1, 3, 7000);
    let keys = KeyList::of(&[Bytes::from_static(b"x"), Bytes::from_static(b"y")]);
    match router.plan_replica_command(None, Command::Del(keys)) {
        ReplicaPlan::DeleteEach(keys) => {
            assert_eq!(keys, vec![Bytes::from_static(b"x"), Bytes::from_static(b"y")])
        }
        _ => panic!("keys are deleted one by one"),
    }
    let pairs = vec![(Bytes::from_static(b"x"), Bytes::from_static(b"1"))];
    match router.plan_replica_command(None, Command::Mset(pairs.clone())) {
        ReplicaPlan::SetEach(p) => assert_eq!(p, pairs),
        _ => panic!("pairs are set one by one"),
    }
    assert!(matches!(router.plan_replica_command(None, Command::Flushall), ReplicaPlan::Empty));
    assert!(matches!(
        router.plan_replica_command(Some(2), Command::Randomkey),
        ReplicaPlan::At(2, Command::Randomkey)
    ));
    assert!(matches!(
        router.plan_replica_command(Some(1), Command::Randomkey),
        ReplicaPlan::Here(Command::Randomkey)
    ));
    assert!(matches!(
        router.plan_replica_command(None, Command::Randomkey),
        ReplicaPlan::Here(Command::Randomkey)
    ));
}

#[test]
fn messages_go_to_interested_peers() {
    let router = Router::new(0, 4, 7000);
    let mut presence = ShardedPresenceTable::new();
    presence.add_subscriber(0, b"news");
    presence.add_subscriber(2, b"news");
    presence.add_pattern_subscriber(3);
    assert_eq!(router.interested_peers(&presence, b"news"), vec![2, 3]);
    presence.remove_pattern_subscriber(3);
    assert_eq!(router.interested_peers(&presence, b"news"), vec![2]);
}

#[test]
fn shard_channels_live_at_the_shard_of_their_slot() {
    let router = Router::new(0, 2, 7000);
    let mut hub = PubSubHub::new();
    let (tx, _rx) = flume::unbounded();
    let here = (0..100)
        .map(|i| format!("chan{}", i))
        .find(|c| matches!(router.route_shard_channel(c.as_bytes()), Route::Here))
        .unwrap();
    let there = (0..100)
        .map(|i| format!("chan{}", i))
        .find(|c| matches!(router.route_shard_channel(c.as_bytes()), Route::At(1)))
        .unwrap();
    assert_eq!(router.ssubscribe(&mut hub, 7, Bytes::from(here.clone()), tx.clone(), false), 1);
    assert_eq!(router.ssubscribe(&mut hub, 7, Bytes::from(there.clone()), tx, false), 2);
    assert_eq!(hub.shard_numsub(here.as_bytes()), 1);
    assert_eq!(hub.shard_numsub(there.as_bytes()), 0);
    assert_eq!(router.sunsubscribe(&mut hub, 7, there.as_bytes()), 1);
    assert_eq!(router.sunsubscribe(&mut hub, 7, here.as_bytes()), 0);
    assert_eq!(hub.shard_numsub(here.as_bytes()), 0);
}

#[test]
fn shards_are_asked_about_their_own_channels() {
    let router = Router::new(0, 3, 7000);
    let channels: Vec<Bytes> =
        ["foo", "bar", "somekey", "foo"].iter().map(|c| Bytes::from(*c)).collect();
    let asked = router.plan_shard_numsub(&channels);
    assert_eq!(asked.len(), 3);
    for (shard, batch) in asked.iter().enumerate() {
        let expected: Vec<(usize, Bytes)> = channels
            .iter()
            .cloned()
            .enumerate()
            .filter(|(_, c)| slot_to_shard(key_slot(c), 3) == shard)
            .collect();
        assert_eq!(*batch, expected);
    }
}

#[test]
fn a_slot_may_be_given_to_any_owner() {
    let mut router = Router::new(0, 2, 7000);
    let slot = key_slot(b"foo");
    router.set_slot_owner(slot, 9);
    assert_eq!(router.target_shard_for_slot(slot), 9);
    assert_eq!(router.target_shard(b"foo", true), 9);
    assert!(matches!(router.route(b"foo", true), Route::At(9)));
}

#[test]
fn one_save_at_a_time() {
    let mut router = Router::new(0, 1, 7000);
    assert_eq!(router.lastsave(55), 55);
    assert_eq!(router.lastsave(99), 55);
    assert!(router.begin_save().is_ok());
    assert_eq!(router.begin_save(), Err("Background save already in progress".to_string()));
    assert_eq!(
        router.begin_rewrite(),
        Err("Background save or rewrite already in progress".to_string())
    );
    router.end_save(77);
    assert_eq!(router.lastsave(99), 77);
    assert!(router.begin_rewrite().is_ok());
    router.end_rewrite();
    assert!(router.begin_save().is_ok());
}

#[test]
fn a_scan_walks_the_shards_in_turn() {
    let router = Router::new(0, 3, 7000);
    assert_eq!(router.scan_from(0), Some((0, 0)));
    let goes_on = router.scan_next(1, 42);
    assert_eq!(router.scan_from(goes_on), Some((1, 42)));
    let next_shard = router.scan_next(1, 0);
    assert_eq!(router.scan_from(next_shard), Some((2, 0)));
    assert_eq!(router.scan_next(2, 0), 0);
    assert_eq!(router.scan_from(u64::MAX), None);
}

#[test]
fn the_lock_is_handed_on_in_order() {
    let mut lock = TxLock::new();
    let (tx, _rx) = flume::unbounded();
    assert!(lock.acquire(1, tx.clone()));
    assert!(!lock.acquire(2, tx.clone()));
    assert!(!lock.acquire(3, tx));
    assert!(lock.release(9).is_none());
    assert_eq!(lock.holder, Some(1));
    assert!(lock.release(1).is_some());
    assert_eq!(lock.holder, Some(2));
    assert!(lock.release(2).is_some());
    assert_eq!(lock.holder, Some(3));
    assert!(lock.release(3).is_none());
    assert_eq!(lock.holder, None);
}

#[test]
fn a_released_descriptor_is_the_next_acquired() {
    let mut pool: DescriptorPool<u32> = DescriptorPool::new();
    for item in 0..40u32 {
        pool.release(Pooled { item, results: 64, lanes: 4 });
    }
    assert_eq!(pool.entries.len(), POOL_LIMIT);
    let idle = vec![true; pool.entries.len()];
    assert_eq!(pool.acquire(64, 4, &idle).unwrap().item, 31);
    let mut idle = vec![true; pool.entries.len()];
    idle[30] = false;
    assert_eq!(pool.acquire(64, 4, &idle).unwrap().item, 29);
    let idle = vec![true; pool.entries.len()];
    assert!(pool.acquire(65, 4, &idle).is_none());
    assert_eq!(new_capacity(8), 64);
    assert_eq!(new_capacity(65), 65);
}
