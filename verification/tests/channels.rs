use bytes::Bytes;
use rudis::presence::ShardedPresenceTable;
use rudis::pubsub::PubSubHub;

#[test]
fn test_pubsub_resp2_and_resp3_push_frames() {
    let mut hub = PubSubHub::new();
    let (tx1, rx1) = flume::unbounded();
    let (tx2, rx2) = flume::unbounded();
    let (tx3, rx3) = flume::unbounded();
    let (tx4, rx4) = flume::unbounded();

    // Client 1: RESP2 subscriber
    hub.subscribe(1, Bytes::from_static(b"news"), tx1, false);
    // Client 2: RESP3 subscriber
    hub.subscribe(2, Bytes::from_static(b"news"), tx2, true);
    // Client 3: RESP3 pattern subscriber
    hub.psubscribe(3, Bytes::from_static(b"news*"), tx3, true);
    // Client 4: RESP2 pattern subscriber
    hub.psubscribe(4, Bytes::from_static(b"news*"), tx4, false);

    let count = hub.publish(b"news", b"breaking");
    assert_eq!(count, 4);

    // Client 1 receives RESP2 array: *3
    let msg1 = rx1.try_recv().unwrap();
    assert!(msg1.starts_with(b"*3\r\n$7\r\nmessage\r\n"));

    // Client 2 receives RESP3 push: >3
    let msg2 = rx2.try_recv().unwrap();
    assert!(msg2.starts_with(b">3\r\n$7\r\nmessage\r\n"));

    // Client 3 receives RESP3 pattern push: >4
    let msg3 = rx3.try_recv().unwrap();
    assert!(msg3.starts_with(b">4\r\n$8\r\npmessage\r\n"));

    // Client 4 receives RESP2 pattern array: *4
    let msg4 = rx4.try_recv().unwrap();
    assert!(msg4.starts_with(b"*4\r\n$8\r\npmessage\r\n"));

    // Unsubscribe cleans up client_resp3
    hub.unsubscribe(2, b"news");
    assert!(!hub.speaks_resp3(2));
    hub.punsubscribe(3, b"news*");
    assert!(!hub.speaks_resp3(3));
}

#[test]
fn test_pubsub_slow_consumer_backpressure_and_zero_copy() {
    let mut hub = PubSubHub::new();
    let (tx1, rx1) = flume::bounded(2);
    let (tx2, rx2) = flume::bounded(10);

    hub.subscribe(1, Bytes::from_static(b"fast_lane"), tx1, false);
    hub.subscribe(2, Bytes::from_static(b"fast_lane"), tx2, false);

    // First 2 publishes fill client 1's queue
    assert_eq!(hub.publish(b"fast_lane", b"msg1"), 2);
    assert_eq!(hub.publish(b"fast_lane", b"msg2"), 2);

    // Third publish: client 1 queue is full (backpressure), client 2 accepts
    assert_eq!(hub.publish(b"fast_lane", b"msg3"), 1);

    // Verify client 1 has msg1 and msg2, but msg3 was dropped due to backpressure
    assert_eq!(
        rx1.try_recv().unwrap(),
        Bytes::from_static(b"*3\r\n$7\r\nmessage\r\n$9\r\nfast_lane\r\n$4\r\nmsg1\r\n")
    );
    assert_eq!(
        rx1.try_recv().unwrap(),
        Bytes::from_static(b"*3\r\n$7\r\nmessage\r\n$9\r\nfast_lane\r\n$4\r\nmsg2\r\n")
    );
    assert!(rx1.try_recv().is_err());

    // Verify client 2 received all three messages
    assert_eq!(
        rx2.try_recv().unwrap(),
        Bytes::from_static(b"*3\r\n$7\r\nmessage\r\n$9\r\nfast_lane\r\n$4\r\nmsg1\r\n")
    );
    assert_eq!(
        rx2.try_recv().unwrap(),
        Bytes::from_static(b"*3\r\n$7\r\nmessage\r\n$9\r\nfast_lane\r\n$4\r\nmsg2\r\n")
    );
    assert_eq!(
        rx2.try_recv().unwrap(),
        Bytes::from_static(b"*3\r\n$7\r\nmessage\r\n$9\r\nfast_lane\r\n$4\r\nmsg3\r\n")
    );
}

#[test]
fn test_sharded_presence_table_bitmask_tracking() {
    let mut presence = ShardedPresenceTable::new();
    let mut hub_shard0 = PubSubHub::new();
    let mut hub_shard1 = PubSubHub::new();

    let (tx0, _rx0) = flume::bounded(10);
    let (tx1, _rx1) = flume::bounded(10);

    // Before any subscriptions, no shards are interested
    assert_eq!(presence.interested_shards(b"sports"), 0);

    // Shard 0 subscribes to "sports"
    hub_shard0.subscribe_with_presence(
        1,
        Bytes::from_static(b"sports"),
        tx0.clone(),
        false,
        Some((0, &mut presence)),
    );
    let mask = presence.interested_shards(b"sports");
    assert_eq!(mask & (1 << 0), 1 << 0, "Shard 0 should be marked present");
    assert_eq!(mask & (1 << 1), 0, "Shard 1 should not be marked present");

    // Shard 1 subscribes to "sports" as well
    hub_shard1.subscribe_with_presence(
        2,
        Bytes::from_static(b"sports"),
        tx1,
        false,
        Some((1, &mut presence)),
    );
    let mask = presence.interested_shards(b"sports");
    assert_eq!(mask & ((1 << 0) | (1 << 1)), (1 << 0) | (1 << 1));

    // Shard 0 unsubscribes
    hub_shard0.unsubscribe_with_presence(1, b"sports", Some((0, &mut presence)));
    let mask = presence.interested_shards(b"sports");
    assert_eq!(mask & (1 << 0), 0, "Shard 0 bit should be cleared");
    assert_eq!(mask & (1 << 1), 1 << 1, "Shard 1 bit should remain");

    // Pattern subscription on shard 0 marks pattern presence for all channels
    hub_shard0.psubscribe_with_presence(
        3,
        Bytes::from_static(b"news.*"),
        tx0,
        false,
        Some((0, &mut presence)),
    );
    assert_eq!(
        presence.interested_shards(b"any_channel") & (1 << 0),
        1 << 0
    );

    // Unsubscribe pattern clears pattern presence
    hub_shard0.punsubscribe_with_presence(3, b"news.*", Some((0, &mut presence)));
    assert_eq!(presence.interested_shards(b"any_channel") & (1 << 0), 0);
}

#[test]
fn test_sharded_pubsub_hub_ssubscribe_spublish_sunsubscribe() {
    let mut hub = PubSubHub::new();
    let (tx1, rx1) = flume::unbounded();
    let (tx2, rx2) = flume::unbounded();
    let (tx_pat, rx_pat) = flume::unbounded();

    // Client 1: RESP2 subscriber to shard channel "orders:eu"
    let count1 = hub.ssubscribe(1, Bytes::from_static(b"orders:eu"), tx1, false);
    assert_eq!(count1, 1);

    // Client 2: RESP3 subscriber to shard channel "orders:eu"
    let count2 = hub.ssubscribe(2, Bytes::from_static(b"orders:eu"), tx2, true);
    assert_eq!(count2, 1);

    // Client 3: pattern subscriber to "orders:*"
    hub.psubscribe(3, Bytes::from_static(b"orders:*"), tx_pat, false);

    // SPUBLISH to "orders:eu"
    let recv_count = hub.spublish(b"orders:eu", b"payload_123");
    // Only the 2 direct shard subscribers receive it; pattern subscriber does not!
    assert_eq!(recv_count, 2);

    // Check client 1 received RESP2 smessage frame: *3\r\n$8\r\nsmessage\r\n...
    let msg1 = rx1.try_recv().unwrap();
    assert_eq!(
        msg1,
        Bytes::from_static(
            b"*3\r\n$8\r\nsmessage\r\n$9\r\norders:eu\r\n$11\r\npayload_123\r\n"
        )
    );

    // Check client 2 received RESP3 smessage frame: >3\r\n$8\r\nsmessage\r\n...
    let msg2 = rx2.try_recv().unwrap();
    assert_eq!(
        msg2,
        Bytes::from_static(
            b">3\r\n$8\r\nsmessage\r\n$9\r\norders:eu\r\n$11\r\npayload_123\r\n"
        )
    );

    // Check pattern subscriber received nothing
    assert!(rx_pat.try_recv().is_err());

    // Test shard_channels and shard_numsub
    let active = hub.shard_channels(None);
    assert_eq!(active, vec![Bytes::from_static(b"orders:eu")]);
    assert_eq!(hub.shard_numsub(b"orders:eu"), 2);
    assert_eq!(hub.shard_numsub(b"orders:us"), 0);

    // SUNSUBSCRIBE
    let remaining1 = hub.sunsubscribe(1, b"orders:eu");
    assert_eq!(remaining1, 0);
    assert_eq!(hub.shard_numsub(b"orders:eu"), 1);

    let remaining2 = hub.sunsubscribe(2, b"orders:eu");
    assert_eq!(remaining2, 0);
    assert_eq!(hub.shard_numsub(b"orders:eu"), 0);
    assert!(hub.shard_channels(None).is_empty());
}
