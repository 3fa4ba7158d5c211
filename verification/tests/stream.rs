use bytes::{Bytes, BytesMut};
use rudis::backlog::ReplicationBacklog;
use rudis::command::Command;
use rudis::readings::ParseEnv;
use rudis::registries::{
    get_presence_table, get_replication_hub, has_connected_replicas, propagate_bytes,
    propagate_shard_bytes, PresenceTables, ReplicationHubs,
};
use rudis::replication::{replication_id, ReplicationHub, ReplicationRole, BACKLOG_SIZE};
use rudis::worker::{
    is_local_name, read_grant, write_sync_request, Action, Event, ReplicaWorker, Stage,
};

const NOW: u128 = 1_700_000_000_000_000_000;

fn env() -> ParseEnv {
    ParseEnv { max_bulk_len: 1 << 20, now_ms: 0, floats: Vec::new() }
}

fn following_hub() -> ReplicationHub {
    let mut hub = ReplicationHub::new(7001, NOW);
    let (cancel, _wait) = flume::unbounded();
    hub.begin_sync("master.example".to_string(), 7000, cancel);
    hub
}

fn slave_state(hub: &ReplicationHub) -> (String, u64, String) {
    match &hub.role {
        ReplicationRole::Slave { link_status, master_repl_offset, master_replid, .. } => {
            (link_status.clone(), *master_repl_offset, master_replid.clone())
        }
        _ => panic!("a slave is expected"),
    }
}

fn written(action: Action) -> Vec<u8> {
    match action {
        Action::Write(bytes) => bytes,
        _ => panic!("something is to be sent"),
    }
}

/// Takes a worker up to the answer to its sync request.
fn greet(worker: &mut ReplicaWorker, hub: &mut ReplicationHub) -> Vec<u8> {
    let env = env();
    assert!(matches!(worker.step(hub, Event::Cancelled(false), &env), Action::Connect));
    let ping = written(worker.step(hub, Event::Connected(true), &env));
    assert_eq!(ping, b"*1\r\n$4\r\nPING\r\n");
    assert!(matches!(worker.step(hub, Event::Written(true), &env), Action::Read));
    let port = written(worker.step(hub, Event::Received(b"+PONG\r\n".to_vec()), &env));
    assert_eq!(port, b"*3\r\n$8\r\nREPLCONF\r\n$14\r\nlistening-port\r\n$4\r\n7001\r\n");
    assert!(matches!(worker.step(hub, Event::Written(true), &env), Action::Read));
    let capa = written(worker.step(hub, Event::Received(b"+OK\r\n".to_vec()), &env));
    assert_eq!(capa, b"*3\r\n$8\r\nREPLCONF\r\n$4\r\ncapa\r\n$6\r\npsync2\r\n");
    assert!(matches!(worker.step(hub, Event::Written(true), &env), Action::Read));
    let sync = written(worker.step(hub, Event::Received(b"+OK\r\n".to_vec()), &env));
    assert!(matches!(worker.step(hub, Event::Written(true), &env), Action::Read));
    sync
}

#[test]
fn a_worker_restores_and_follows() {
    let env = env();
    let mut hub = following_hub();
    let mut worker = ReplicaWorker::new(7001);
    let sync = greet(&mut worker, &mut hub);
    assert_eq!(sync, b"*3\r\n$5\r\nPSYNC\r\n$1\r\n?\r\n$2\r\n-1\r\n");

    let mut action =
        worker.step(&mut hub, Event::Received(b"+FULLRESYNC abc 100\r\n".to_vec()), &env);
    assert!(matches!(action, Action::Read));
    action = worker.step(&mut hub, Event::Received(b"$4\r\nDA".to_vec()), &env);
    assert!(matches!(action, Action::Read));
    action = worker.step(&mut hub, Event::Received(b"TA".to_vec()), &env);
    match action {
        Action::Restore(data) => assert_eq!(data, Bytes::from_static(b"DATA")),
        _ => panic!("the data set is complete"),
    }
    action = worker.step(&mut hub, Event::Restored, &env);
    assert!(matches!(action, Action::AskCancelled));
    assert_eq!(slave_state(&hub), ("up".to_string(), 100, "abc".to_string()));

    action = worker.step(&mut hub, Event::Cancelled(false), &env);
    assert!(matches!(action, Action::Read));
    let get = b"*2\r\n$3\r\nGET\r\n$1\r\nk\r\n".to_vec();
    let len = get.len() as u64;
    action = worker.step(&mut hub, Event::Received(get), &env);
    assert!(matches!(action, Action::AskCancelled));
    action = worker.step(&mut hub, Event::Cancelled(false), &env);
    match action {
        Action::Execute(Command::Get(key)) => assert_eq!(key, Bytes::from_static(b"k")),
        _ => panic!("the command is to be carried out"),
    }
    action = worker.step(&mut hub, Event::Executed, &env);
    assert!(matches!(action, Action::Proceed));
    assert_eq!(slave_state(&hub).1, 100 + len);
    action = worker.step(&mut hub, Event::Proceed, &env);
    assert!(matches!(action, Action::Read));

    // The other end goes away; the worker waits, and asks for the rest.
    action = worker.step(&mut hub, Event::Received(Vec::new()), &env);
    assert!(matches!(action, Action::AskCancelled));
    assert_eq!(slave_state(&hub).0, "down");
    action = worker.step(&mut hub, Event::Cancelled(false), &env);
    assert!(matches!(action, Action::Sleep));
    action = worker.step(&mut hub, Event::Woke, &env);
    assert!(matches!(action, Action::AskCancelled));
    let sync = greet(&mut worker, &mut hub);
    assert_eq!(sync, write_sync_request("abc", 100 + len));
    action = worker.step(&mut hub, Event::Received(b"+CONTINUE\r\n".to_vec()), &env);
    assert!(matches!(action, Action::AskCancelled));
    assert_eq!(slave_state(&hub), ("up".to_string(), 100 + len, "abc".to_string()));
    action = worker.step(&mut hub, Event::Cancelled(true), &env);
    assert!(matches!(action, Action::Finish));
    assert!(matches!(worker.stage, Stage::Done));
    assert_eq!(slave_state(&hub).0, "down");
}

#[test]
fn a_worker_answers_for_its_offset() {
    let env = env();
    let mut hub = following_hub();
    let mut worker = ReplicaWorker::new(7001);
    greet(&mut worker, &mut hub);
    worker.step(&mut hub, Event::Received(b"+CONTINUE xyz\r\n".to_vec()), &env);
    let ask = b"*3\r\n$8\r\nREPLCONF\r\n$6\r\nGETACK\r\n$1\r\n*\r\n".to_vec();
    let len = ask.len() as u64;
    worker.step(&mut hub, Event::Cancelled(false), &env);
    worker.step(&mut hub, Event::Received(ask), &env);
    let ack = written(worker.step(&mut hub, Event::Cancelled(false), &env));
    let digits = len.to_string();
    let expected = format!(
        "*3\r\n$8\r\nREPLCONF\r\n$3\r\nACK\r\n${}\r\n{}\r\n",
        digits.len(),
        digits
    );
    assert_eq!(ack, expected.into_bytes());
    assert!(matches!(worker.step(&mut hub, Event::Written(true), &env), Action::Proceed));
    assert_eq!(slave_state(&hub).1, len);
}

#[test]
fn a_worker_ends_when_told() {
    let env = env();
    let mut hub = following_hub();
    let mut worker = ReplicaWorker::new(7001);
    assert!(matches!(worker.step(&mut hub, Event::Cancelled(true), &env), Action::Finish));
    let mut worker = ReplicaWorker::new(7001);
    worker.step(&mut hub, Event::Cancelled(false), &env);
    let action = worker.step(&mut hub, Event::Connected(false), &env);
    assert!(matches!(action, Action::AskCancelled));
    assert!(matches!(worker.step(&mut hub, Event::Cancelled(true), &env), Action::Finish));
}

#[test]
fn grants_name_a_stream() {
    let words = |text: &str| text.split(' ').map(|w| w.to_string()).collect::<Vec<String>>();
    assert_eq!(
        read_grant(false, &words("+FULLRESYNC abc 12"), String::new(), 7),
        ("abc".to_string(), 12)
    );
    assert_eq!(
        read_grant(false, &words("+FULLRESYNC abc x"), String::new(), 7),
        ("abc".to_string(), 0)
    );
    assert_eq!(
        read_grant(false, &words("+FULLRESYNC"), "old".to_string(), 7),
        (String::new(), 0)
    );
    assert_eq!(
        read_grant(true, &words("+CONTINUE"), "old".to_string(), 7),
        ("old".to_string(), 7)
    );
    assert_eq!(
        read_grant(true, &words("+CONTINUE new"), "old".to_string(), 7),
        ("new".to_string(), 7)
    );
    assert!(is_local_name("localhost"));
    assert!(!is_local_name("127.0.0.1"));
}

#[test]
fn what_was_sent_can_be_sent_again() {
    let mut hub = ReplicationHub::new(7000, NOW);
    let (tx, rx) = flume::unbounded();
    hub.register_replica(1, tx.clone());
    let mut sent = Vec::new();
    for part in ["first", "second", "third"] {
        hub.propagate(part.as_bytes());
        sent.extend_from_slice(part.as_bytes());
    }
    assert_eq!(hub.master_repl_offset, sent.len() as u64);
    let mut received = Vec::new();
    while let Ok(part) = rx.try_recv() {
        received.extend(part);
    }
    assert_eq!(received, sent);
    let replid = hub.master_replid.clone();
    for from in 0..=sent.len() {
        let (id, rest) = hub.try_partial_resync(2, tx.clone(), &replid, from as i64).unwrap();
        assert_eq!(id, replid);
        assert_eq!(rest, &sent[from..]);
    }
    assert!(hub.can_partial_resync(&replid, 0));
    assert!(!hub.can_partial_resync("other", 0));
}

#[test]
fn a_backlog_keeps_the_newest_bytes() {
    let mut backlog = ReplicationBacklog::new(4);
    assert!(backlog.is_empty());
    backlog.append(b"abcdefg", 7);
    assert_eq!((backlog.len(), backlog.first_byte_offset), (4, 4));
    assert_eq!(backlog.get_diff(4, 7), Some(b"defg".to_vec()));
    backlog.append(b"hi", 9);
    assert_eq!(backlog.get_diff(6, 9), Some(b"fghi".to_vec()));
    assert_eq!(backlog.get_diff(5, 9), None);
    assert!(!backlog.is_empty());
}

#[test]
fn promotion_keeps_the_stream() {
    let mut hub = following_hub();
    hub.link_up("abc".to_string(), 50);
    hub.follow_to(60);
    assert_eq!(hub.resume_from(), ("abc".to_string(), 60));
    hub.set_link("down");
    assert_eq!(slave_state(&hub).0, "down");
    assert!(hub.stop_sync().is_some());
    hub.make_master(NOW + 1);
    assert_eq!(hub.master_repl_offset, 60);
    assert!(hub.can_partial_resync("abc", 60));
    assert!(!hub.can_partial_resync("abc", 61));
}

#[test]
fn replicas_acknowledge() {
    let mut hub = ReplicationHub::new(7000, NOW);
    let (tx, _rx) = flume::unbounded();
    hub.register_replica(3, tx);
    hub.update_replica_ack(3, 42, 1000);
    hub.set_replica_port(3, 7009);
    let replica = hub.replica(3).unwrap();
    assert_eq!((replica.ack_offset, replica.last_ack_time, replica.listening_port), (42, 1000, 7009));
    assert!(hub.replica(4).is_none());
    let role = hub.format_role_resp();
    assert_eq!(
        role,
        b"*3\r\n$6\r\nmaster\r\n:0\r\n*1\r\n*3\r\n$9\r\n127.0.0.1\r\n$4\r\n7009\r\n:42\r\n".to_vec()
    );
    assert_eq!(hub.master_role_resp(&vec![3]), role);
    let info = hub.format_info_replication();
    assert!(info.starts_with("# Replication\r\nrole:master\r\nconnected_slaves:1\r\n"));
    assert!(info.contains(&format!("repl_backlog_size:{}\r\n", BACKLOG_SIZE)));
}

#[test]
fn a_slave_reports_its_master() {
    let hub = following_hub();
    assert_eq!(
        hub.format_role_resp(),
        b"*5\r\n$5\r\nslave\r\n$14\r\nmaster.example\r\n:7000\r\n$7\r\nconnect\r\n:0\r\n".to_vec()
    );
    assert!(hub.is_slave());
    assert!(!hub.is_master());
}

#[test]
fn identities_are_forty_hexadecimal_digits() {
    let id = replication_id(7000, 0x1234);
    assert_eq!(id.len(), 40);
    assert!(id.bytes().all(|c| c.is_ascii_hexdigit()));
    assert_ne!(id, replication_id(7001, 0x1234));
    assert_ne!(id, replication_id(7000, 0x1235));
    assert_eq!(id, replication_id(7000, 0x1234));
    let place = fxhash::hash64(&7000u16.to_le_bytes()[..]);
    assert_eq!(id, format!("{:016x}{:016x}{:08x}", place, 0x1234, 7000));
    let stamp = fxhash::hash64(&NOW.to_le_bytes()[..]);
    let mut hub = ReplicationHub::new(7000, NOW);
    assert_eq!(hub.master_replid, format!("{:016x}{:016x}{:08x}", place, stamp, 7000));
    hub.make_master(NOW + 1);
    let stamp = fxhash::hash64(&(NOW + 1).to_le_bytes()[..]);
    match &hub.role {
        ReplicationRole::Master { replid, .. } => {
            assert_eq!(*replid, format!("{:016x}{:016x}{:08x}", place, stamp, 7000));
        }
        _ => panic!("a master is expected"),
    }
}

#[test]
fn hubs_are_found_by_port() {
    let mut hubs = ReplicationHubs::new();
    assert!(!hubs.is_active());
    propagate_bytes(&mut hubs, 7000, b"lost", NOW);
    assert!(!has_connected_replicas(&hubs, 7000));
    get_replication_hub(&mut hubs, 7000, NOW);
    let (tx, rx) = flume::unbounded();
    get_replication_hub(&mut hubs, 7000, NOW).register_replica(1, tx.clone());
    assert!(hubs.is_active());
    assert!(has_connected_replicas(&hubs, 7000));
    assert!(!has_connected_replicas(&hubs, 7001));
    propagate_bytes(&mut hubs, 7000, b"kept", NOW);
    assert_eq!(rx.try_recv().unwrap(), b"kept".to_vec());
    assert_eq!(get_replication_hub(&mut hubs, 7000, NOW).master_repl_offset, 4);
    get_replication_hub(&mut hubs, 7000, NOW).register_shard_flow(2, 9, tx);
    propagate_shard_bytes(&mut hubs, 7000, 2, b"flow", NOW);
    let hub = get_replication_hub(&mut hubs, 7000, NOW);
    assert_eq!(hub.shard_flows.get(2, 9).unwrap().lsn, 4);
}

#[test]
fn presence_tables_are_found_by_port() {
    let mut tables = PresenceTables::new();
    get_presence_table(&mut tables, 7000).add_subscriber(1, b"news");
    assert!(get_presence_table(&mut tables, 7000).is_shard_interested(1, b"news"));
    assert!(!get_presence_table(&mut tables, 7001).is_shard_interested(1, b"news"));
}

#[test]
fn what_waits_is_kept() {
    let env = env();
    let mut hub = following_hub();
    let mut worker = ReplicaWorker::new(7001);
    greet(&mut worker, &mut hub);
    worker.step(&mut hub, Event::Received(b"+CONTINUE xyz\r\n*2\r\n$3\r\nGET".to_vec()), &env);
    assert_eq!(worker.waiting, BytesMut::from(&b"*2\r\n$3\r\nGET"[..]));
}

#[test]
fn replicas_that_are_gone_are_let_go() {
    let mut hub = ReplicationHub::new(7000, NOW);
    let (here, rx) = flume::unbounded();
    let (gone, _) = flume::unbounded();
    hub.register_replica(1, here.clone());
    hub.register_replica(2, gone.clone());
    hub.register_shard_flow(0, 3, here);
    hub.register_shard_flow(1, 4, gone);
    let lost = hub.propagate(b"abc");
    assert_eq!(lost.replicas.keys().collect::<Vec<&u64>>(), vec![&2]);
    assert!(lost.flows.get(1, 4).is_some());
    assert!(lost.flows.get(0, 3).is_none());
    assert!(hub.replica(1).is_some() && hub.replica(2).is_none());
    assert!(hub.shard_flows.get(1, 4).is_none());
    assert_eq!(hub.shard_flows.get(0, 3).unwrap().lsn, 3);
    assert_eq!(rx.drain().collect::<Vec<Vec<u8>>>(), vec![b"abc".to_vec(), b"abc".to_vec()]);
    let lost = hub.propagate_shard(1, b"de");
    assert!(lost.replicas.is_empty());
    assert_eq!(rx.drain().collect::<Vec<Vec<u8>>>(), vec![b"de".to_vec()]);
    hub.propagate_shard(0, b"");
    assert_eq!(rx.drain().collect::<Vec<Vec<u8>>>(), vec![Vec::new(), Vec::new()]);
    hub.slave = true;
    hub.propagate(b"f");
    assert!(rx.is_empty());
    assert_eq!(hub.master_repl_offset, 5);
}

#[test]
fn a_backlog_is_kept_once_active() {
    let mut hub = ReplicationHub::new(7000, NOW);
    hub.backlog_active = false;
    hub.propagate(b"lost");
    assert_eq!(hub.master_repl_offset, 0);
    hub.activate_backlog();
    hub.propagate(b"kept");
    assert_eq!(hub.master_repl_offset, 4);
    assert!(hub.activated);
}

#[test]
fn answers_are_parted_at_white_space() {
    let env = env();
    let mut hub = following_hub();
    let mut worker = ReplicaWorker::new(7001);
    greet(&mut worker, &mut hub);
    let answer = "+CONTINUE\u{3000}\t new\u{85}id \r\n".as_bytes().to_vec();
    worker.step(&mut hub, Event::Received(answer), &env);
    assert_eq!(slave_state(&hub), ("up".to_string(), 0, "new".to_string()));
}

#[test]
fn a_backlog_starts_blank_and_keeps_still() {
    let mut backlog = ReplicationBacklog::new(3);
    assert_eq!((backlog.buffer.clone(), backlog.write_idx), (vec![0, 0, 0], 0));
    backlog.append(b"ab", 2);
    backlog.append(b"", 9);
    assert_eq!(backlog.buffer, b"ab\0");
    assert_eq!((backlog.write_idx, backlog.len(), backlog.first_byte_offset), (2, 2, 1));
}

#[test]
fn replicas_are_taken_on_where_they_can_go_on() {
    let mut hub = ReplicationHub::new(7000, NOW);
    let id = hub.master_replid.clone();
    hub.propagate(b"abcdef");
    for offset in -2..9 {
        let (tx, _rx) = flume::unbounded();
        let possible = hub.can_partial_resync(&id, offset);
        let had = hub.has_replicas;
        match hub.try_partial_resync(offset as u64, tx, &id, offset) {
            Some((_, diff)) => {
                assert!(possible);
                assert_eq!(diff.len() as i64, 6 - offset);
            }
            None => assert!(!possible && hub.has_replicas == had),
        }
    }
    assert_eq!(hub.replicas.len(), 7);
}
