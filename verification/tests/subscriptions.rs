use bytes::Bytes;
use rudis::delivery::{build_pubsub_frame, build_pubsub_pframe, count_taken};
use rudis::presence::ShardedPresenceTable;
use rudis::pubsub::PubSubHub;

fn b(text: &'static str) -> Bytes {
    Bytes::from_static(text.as_bytes())
}

#[test]
fn every_subscriber_is_offered_a_frame() {
    let mut hub = PubSubHub::new();
    let (tx, rx) = flume::unbounded();
    let (full, _kept) = flume::bounded(0);
    hub.subscribe(1, b("news"), tx.clone(), false);
    hub.psubscribe(1, b("n*"), tx, false);
    hub.subscribe(2, b("news"), full, true);
    hub.subscribe(3, b("sports"), flume::unbounded().0, false);
    let sent = hub.announce(b"news", b"hi");
    assert_eq!(sent.deliveries.len(), 3);
    assert_eq!(sent.taken.len(), 3);
    for (delivery, took) in sent.deliveries.iter().zip(&sent.taken) {
        assert_eq!(*took, delivery.client_id == 1);
        let expected = match (&delivery.pattern, delivery.client_id) {
            (Some(p), _) => build_pubsub_pframe(p, b"news", b"hi", false),
            (None, 1) => build_pubsub_frame(b"message", b"news", b"hi", false),
            (None, _) => build_pubsub_frame(b"message", b"news", b"hi", true),
        };
        assert_eq!(delivery.frame, expected);
    }
    assert_eq!(count_taken(&sent.taken), 2);
    assert_eq!(rx.len(), 2);
    assert_eq!(count_taken(&vec![]), 0);
}

#[test]
fn frames_differ_by_protocol() {
    assert_eq!(
        build_pubsub_frame(b"message", b"c", b"m", false),
        b("*3\r\n$7\r\nmessage\r\n$1\r\nc\r\n$1\r\nm\r\n")
    );
    assert_eq!(
        build_pubsub_pframe(b"p*", b"c", b"m", true),
        b(">4\r\n$8\r\npmessage\r\n$2\r\np*\r\n$1\r\nc\r\n$1\r\nm\r\n")
    );
}

#[test]
fn unsubscribing_undoes_subscribing() {
    let mut hub = PubSubHub::new();
    let (tx, _rx) = flume::unbounded();
    assert_eq!(hub.subscribe(1, b("a"), tx.clone(), true), 1);
    assert_eq!(hub.subscribe(1, b("a"), tx.clone(), true), 1);
    assert_eq!(hub.subscribe(1, b("b"), tx.clone(), true), 2);
    assert_eq!(hub.psubscribe(1, b("x*"), tx, true), 3);
    assert_eq!(hub.total_subscriptions(1), 3);
    assert!(hub.speaks_resp3(1));
    assert_eq!(hub.numpat(), 1);
    assert_eq!(hub.numsub(b"a"), 1);
    assert_eq!(hub.channels(Some(b"a")), vec![b("a")]);
    assert_eq!(hub.unsubscribe(1, b"zzz"), 3);
    assert_eq!(hub.unsubscribe(1, b"a"), 2);
    assert_eq!(hub.unsubscribe_all(1), vec![(b("b"), 1)]);
    assert_eq!(hub.punsubscribe_all(1), vec![(b("x*"), 0)]);
    assert!(!hub.speaks_resp3(1));
    assert_eq!(hub.total_subscriptions(1), 0);
    assert_eq!(hub.publish(b"a", b"m"), 0);
    assert!(hub.channels(None).is_empty());
}

#[test]
fn presence_follows_the_last_subscriber() {
    let mut table = ShardedPresenceTable::new();
    let mut hub = PubSubHub::new();
    let (tx, _rx) = flume::unbounded();
    hub.subscribe_with_presence(1, b("news"), tx.clone(), false, Some((5, &mut table)));
    hub.subscribe_with_presence(2, b("news"), tx.clone(), false, Some((5, &mut table)));
    assert_eq!(table.interested_shards(b"news"), 1 << 5);
    hub.unsubscribe_with_presence(1, b"news", Some((5, &mut table)));
    assert!(table.is_shard_interested(5, b"news"));
    hub.psubscribe_with_presence(2, b("q*"), tx, false, Some((5, &mut table)));
    hub.remove_client_with_presence(2, Some((5, &mut table)));
    assert!(!table.is_shard_interested(5, b"news"));
    assert!(!table.is_shard_interested(5, b"anything"));
    assert_eq!(ShardedPresenceTable::stripe_for(b""), 0xcbf29ce484222325u64 as usize % 16);
}

#[test]
fn shard_channels_of_other_shards_are_noted() {
    let mut hub = PubSubHub::new();
    let (tx, rx) = flume::unbounded();
    hub.ssubscribe(1, b("here"), tx, false);
    hub.note_remote(1, b("there"));
    assert_eq!(hub.total_subscriptions(1), 2);
    let mut names = hub.shard_names(1);
    names.sort();
    assert_eq!(names, vec![b("here"), b("there")]);
    let sent = hub.sannounce(b"here", b"m");
    assert_eq!(sent.taken, vec![true]);
    assert_eq!(rx.len(), 1);
    assert!(hub.sannounce(b"there", b"m").taken.is_empty());
    hub.forget_remote(1, b"there");
    assert_eq!(hub.sunsubscribe_all(1), vec![(b("here"), 0)]);
    hub.remove_client(1);
    assert_eq!(hub.spublish(b"here", b"m"), 0);
}

#[test]
fn subscribing_again_changes_the_sending_end_alone() {
    let mut table = ShardedPresenceTable::new();
    let mut hub = PubSubHub::new();
    let (tx, rx) = flume::unbounded();
    let (tx2, rx2) = flume::unbounded();
    assert_eq!(hub.subscribe_with_presence(1, b("a"), tx, true, Some((3, &mut table))), 1);
    assert_eq!(hub.subscribe_with_presence(1, b("a"), tx2, false, Some((3, &mut table))), 1);
    assert_eq!(hub.numsub(b"a"), 1);
    assert!(!hub.speaks_resp3(1));
    assert_eq!(hub.publish(b"a", b"m"), 1);
    assert_eq!((rx.len(), rx2.len()), (0, 1));
    assert_eq!(table.interested_shards(b"a"), 1 << 3);
    assert_eq!(hub.unsubscribe_with_presence(1, b"a", Some((3, &mut table))), 0);
    assert_eq!(table.interested_shards(b"a"), 0);
}

#[test]
fn publishing_counts_the_frames_that_were_taken() {
    let mut hub = PubSubHub::new();
    let (tx, rx) = flume::bounded(1);
    let (tx2, rx2) = flume::unbounded();
    hub.subscribe(1, b("a"), tx.clone(), false);
    hub.psubscribe(1, b("*"), tx, false);
    hub.subscribe(2, b("a"), tx2, true);
    assert_eq!(hub.publish(b"a", b"m"), 2);
    assert_eq!(rx.len(), 1);
    assert_eq!(rx2.recv().unwrap(), build_pubsub_frame(b"message", b"a", b"m", true));
    let (tx3, rx3) = flume::unbounded();
    hub.ssubscribe(3, b("s"), tx3, false);
    assert_eq!(hub.spublish(b"s", b"m"), 1);
    assert_eq!(rx3.recv().unwrap(), build_pubsub_frame(b"smessage", b"s", b"m", false));
    drop(rx3);
    assert_eq!(hub.spublish(b"s", b"m"), 0);
}

#[test]
fn a_hub_starts_empty() {
    let hub = PubSubHub::default();
    assert!(hub.channels(None).is_empty() && hub.shard_channels(None).is_empty());
    assert_eq!((hub.numpat(), hub.total_subscriptions(1)), (0, 0));
}

#[test]
fn every_frame_is_sent_once() {
    let mut hub = PubSubHub::new();
    let (tx, rx) = flume::unbounded();
    let (other, quiet) = flume::unbounded();
    hub.subscribe(1, b("a"), tx.clone(), false);
    hub.psubscribe(1, b("a*"), tx.clone(), false);
    hub.ssubscribe(1, b("a"), tx, false);
    hub.subscribe(2, b("b"), other, false);
    assert_eq!(hub.publish(b"a", b"m"), 2);
    let mut frames: Vec<Bytes> = rx.drain().collect();
    frames.sort();
    assert_eq!(
        frames,
        vec![
            build_pubsub_frame(b"message", b"a", b"m", false),
            build_pubsub_pframe(b"a*", b"a", b"m", false),
        ]
    );
    assert_eq!(hub.spublish(b"a", b"m"), 1);
    assert_eq!(
        rx.drain().collect::<Vec<Bytes>>(),
        vec![build_pubsub_frame(b"smessage", b"a", b"m", false)]
    );
    assert_eq!(hub.publish(b"c", b"m"), 0);
    assert!(rx.is_empty() && quiet.is_empty());
}
