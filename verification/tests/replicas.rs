use rudis::backlog::ReplicationBacklog;
use rudis::replication::{ReplicationHub, ReplicationRole};

const NOW: u128 = 1_700_000_000_000_000_000;
const LATER: u128 = 1_700_000_001_000_000_000;

#[test]
fn test_backlog_append_and_diff() {
    let mut backlog = ReplicationBacklog::new(20);
    assert_eq!(backlog.first_byte_offset, 1);
    assert!(backlog.can_partial_sync(1, 0));
    assert!(!backlog.can_partial_sync(2, 0));
    assert_eq!(backlog.get_diff(1, 0), Some(Vec::new()));

    // Append 10 bytes: "0123456789"
    backlog.append(b"0123456789", 10);
    assert_eq!(backlog.len(), 10);
    assert_eq!(backlog.first_byte_offset, 1);
    assert!(backlog.can_partial_sync(1, 10));
    assert!(backlog.can_partial_sync(6, 10));
    assert!(backlog.can_partial_sync(11, 10));
    assert!(!backlog.can_partial_sync(12, 10));

    // Diff from offset 1 (target 1, index 0): all 10 bytes
    assert_eq!(backlog.get_diff(1, 10), Some(b"0123456789".to_vec()));
    // Diff from offset 6 (target 6, index 5): "56789"
    assert_eq!(backlog.get_diff(6, 10), Some(b"56789".to_vec()));
    // Diff from offset 11 (target 11, up-to-date): empty
    assert_eq!(backlog.get_diff(11, 10), Some(Vec::new()));

    // Overflow backlog (max_size is 20, append 15 bytes -> total 25 bytes, drain 5)
    backlog.append(b"abcdefghijklmno", 25);
    assert_eq!(backlog.len(), 20);
    // first_byte_offset = 25 - 20 + 1 = 6
    assert_eq!(backlog.first_byte_offset, 6);
    // target < 6 cannot partial sync
    assert!(!backlog.can_partial_sync(5, 25));
    assert_eq!(backlog.get_diff(5, 25), None);
    // target 6 can partial sync (index 0)
    assert!(backlog.can_partial_sync(6, 25));
    assert_eq!(backlog.get_diff(6, 25).unwrap().len(), 20);
}

#[test]
fn test_try_partial_resync() {
    let mut hub = ReplicationHub::new(19999, NOW);
    let (tx, _rx) = flume::unbounded();

    // Initially offset is 0, empty backlog
    let replid = hub.master_replid.clone();

    // Unknown replid fails
    assert!(
        hub.try_partial_resync(1, tx.clone(), "unknown_replid", 0)
            .is_none()
    );

    // Negative offset fails
    assert!(hub.try_partial_resync(1, tx.clone(), &replid, -1).is_none());

    // Offset 0 succeeds with empty diff
    let res = hub.try_partial_resync(1, tx.clone(), &replid, 0);
    assert!(res.is_some());
    let (out_id, diff) = res.unwrap();
    assert_eq!(out_id, replid);
    assert!(diff.is_empty());
    assert_eq!(hub.replica(1).unwrap().id, 1);
    hub.unregister_replica(1);

    // Propagate mutation
    hub.propagate(b"*3\r\n$3\r\nSET\r\n$1\r\na\r\n$1\r\n1\r\n");
    let current_offset = hub.master_repl_offset;
    assert!(current_offset > 0);

    // Can partial resync from offset 0 (wants diff from byte 1)
    let res2 = hub.try_partial_resync(2, tx.clone(), &replid, 0);
    assert!(res2.is_some());
    let (_, diff2) = res2.unwrap();
    assert_eq!(diff2, b"*3\r\n$3\r\nSET\r\n$1\r\na\r\n$1\r\n1\r\n");
    hub.unregister_replica(2);

    // Replay from current offset (up to date)
    let res3 = hub.try_partial_resync(3, tx.clone(), &replid, current_offset as i64);
    assert!(res3.is_some());
    let (_, diff3) = res3.unwrap();
    assert!(diff3.is_empty());
    hub.unregister_replica(3);

    // Offset beyond master fails
    assert!(
        hub.try_partial_resync(4, tx.clone(), &replid, (current_offset + 10) as i64)
            .is_none()
    );
}

#[test]
fn test_replication_atomic_bypass_and_lock_elimination() {
    let mut hub = ReplicationHub::new(19998, NOW);
    assert!(hub.is_master());
    assert!(!hub.is_slave());
    assert!(!hub.has_replicas);
    assert!(hub.backlog_active);

    // When backlog is active, propagate records mutation and increments offset
    hub.propagate(b"*3\r\n$3\r\nSET\r\n$1\r\nk\r\n$1\r\nv\r\n");
    assert!(hub.master_repl_offset > 0);

    // Register replica attaches connected replica
    let (tx, _rx) = flume::unbounded();
    hub.register_replica(10, tx);
    assert!(hub.has_replicas);
    assert!(hub.backlog_active);
    assert!(hub.activated);

    // Now propagate mutates backlog and increments offset
    hub.propagate(b"*3\r\n$3\r\nSET\r\n$1\r\nk\r\n$1\r\nv\r\n");
    assert!(hub.master_repl_offset > 0);

    let rep_id = hub.replica(10).unwrap().id;
    hub.unregister_replica(rep_id);
    assert!(!hub.has_replicas);

    // Make master clears is_slave
    hub.slave = true;
    assert!(hub.is_slave());
    hub.make_master(LATER);
    assert!(hub.is_master());
    assert!(!hub.is_slave());
}

#[test]
fn test_replica_partial_resync_and_psync2_failover() {
    let mut hub = ReplicationHub::new(19997, NOW);
    let master_replid = "a1b2c3d4e5f6a1b2c3d4e5f6a1b2c3d4e5f6a1b2".to_string();
    hub.role = ReplicationRole::Slave {
        master_host: "127.0.0.1".to_string(),
        master_port: 6379,
        link_status: "up".to_string(),
        master_repl_offset: 120,
        master_replid: master_replid.clone(),
        sync_in_progress: false,
    };
    hub.slave = true;

    // Verify info replication outputs master_replid and offset
    let info = hub.format_info_replication();
    assert!(info.contains("role:slave"));
    assert!(info.contains(&format!("master_replid:{}", master_replid)));
    assert!(info.contains("slave_repl_offset:120"));

    // Promote slave to master via make_master
    hub.make_master(LATER);
    assert!(hub.is_master());
    assert!(!hub.is_slave());
    assert_eq!(hub.master_repl_offset, 120);

    // Verify replid2 and second_offset inherited
    {
        match &hub.role {
            ReplicationRole::Master {
                replid,
                replid2,
                second_offset,
            } => {
                assert_ne!(replid, &master_replid);
                assert_eq!(replid2, &master_replid);
                assert_eq!(*second_offset, 120);
            }
            _ => panic!("Expected master role"),
        }
    }

    // Test that try_partial_resync succeeds for a client asking for replid2 at offset <= second_offset
    let (tx, _rx) = flume::unbounded();
    assert!(
        hub.try_partial_resync(100, tx.clone(), &master_replid, 120)
            .is_some()
    );
    hub.unregister_replica(100);

    // Asking for replid2 at offset > second_offset fails
    assert!(
        hub.try_partial_resync(101, tx, &master_replid, 121)
            .is_none()
    );
}

#[test]
fn test_per_shard_parallel_replication_flows() {
    let mut hub = ReplicationHub::new(19996, NOW);
    let (tx0, rx0) = flume::bounded(16);
    let (tx1, rx1) = flume::bounded(16);

    // Register flows for Shard 0 and Shard 1
    hub.register_shard_flow(0, 100, tx0);
    hub.register_shard_flow(1, 101, tx1);

    assert!(hub.has_shard_flows);
    assert_eq!(hub.shard_flows.get(0, 100).unwrap().shard_id, 0);
    assert_eq!(hub.shard_flows.get(1, 101).unwrap().shard_id, 1);

    // Mutation on Shard 0
    let cmd0 = b"*3\r\n$3\r\nSET\r\n$4\r\nkey0\r\n$4\r\nval0\r\n";
    hub.propagate_shard(0, cmd0);

    // Shard 0 flow receives mutation, Shard 1 receives nothing
    assert_eq!(rx0.try_recv().unwrap(), cmd0.to_vec());
    assert!(rx1.try_recv().is_err());
    assert_eq!(hub.shard_flows.get(0, 100).unwrap().lsn, cmd0.len() as u64);
    assert_eq!(hub.shard_flows.get(1, 101).unwrap().lsn, 0);

    // Mutation on Shard 1
    let cmd1 = b"*3\r\n$3\r\nSET\r\n$4\r\nkey1\r\n$4\r\nval1\r\n";
    hub.propagate_shard(1, cmd1);

    // Shard 1 flow receives mutation, Shard 0 receives nothing
    assert_eq!(rx1.try_recv().unwrap(), cmd1.to_vec());
    assert!(rx0.try_recv().is_err());
    assert_eq!(hub.shard_flows.get(1, 101).unwrap().lsn, cmd1.len() as u64);

    // Test ACK tracking
    hub.update_shard_flow_ack(0, 100, 42);
    assert_eq!(hub.shard_flows.get(0, 100).unwrap().ack_lsn, 42);

    // Unregister flows
    hub.unregister_shard_flow(0, 100);
    hub.unregister_shard_flow(1, 101);
    assert!(!hub.has_shard_flows);
}
