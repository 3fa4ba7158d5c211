//! The replication of a server: its role, its stream and the replicas that follow it.
use flume::Sender;
use std::collections::HashMap;
use vstd::prelude::*;

use crate::backlog::{appended, records, ReplicationBacklog};
use crate::followers::{
    feed_replicas, flows_fed, replicas_fed, ConnectedReplica, ShardFlows, ShardReplicaFlow,
};
use crate::hashing::{fx_hash, fx_hashed};
use crate::tables::Outlet;
use crate::text::same_text;
use crate::writing::{append_hex, hex_text};

verus! {

broadcast use vstd::std_specs::hash::group_hash_axioms;

/// How many bytes of its stream a server keeps.
pub const BACKLOG_SIZE: usize = 1048576;

/// The role of a server: to be followed, or to follow.
#[derive(Clone, Debug, PartialEq, Eq)]
pub enum ReplicationRole {
    Master { replid: String, replid2: String, second_offset: i64 },
    Slave {
        master_host: String,
        master_port: u16,
        link_status: String,
        master_repl_offset: u64,
        master_replid: String,
        sync_in_progress: bool,
    },
}

/// A role, with its text as characters.
#[verifier::ext_equal]
pub enum Role {
    Master { replid: Seq<char>, replid2: Seq<char>, second_offset: i64 },
    Slave {
        master_host: Seq<char>,
        master_port: u16,
        link_status: Seq<char>,
        master_repl_offset: u64,
        master_replid: Seq<char>,
        sync_in_progress: bool,
    },
}

impl View for ReplicationRole {
    type V = Role;

    open spec fn view(&self) -> Role {
        match *self {
            ReplicationRole::Master { replid, replid2, second_offset } => Role::Master {
                replid: replid@,
                replid2: replid2@,
                second_offset,
            },
            ReplicationRole::Slave {
                master_host,
                master_port,
                link_status,
                master_repl_offset,
                master_replid,
                sync_in_progress,
            } => Role::Slave {
                master_host: master_host@,
                master_port,
                link_status: link_status@,
                master_repl_offset,
                master_replid: master_replid@,
                sync_in_progress,
            },
        }
    }
}

/// The identity of no stream.
pub open spec fn no_replid() -> Seq<char> {
    "0000000000000000000000000000000000000000"@
}

/// The two bytes of a port, the low one first.
pub open spec fn port_bytes(port: u16) -> Seq<u8> {
    seq![(port % 256) as u8, (port / 256) as u8]
}

/// The bytes of a number, the low one first.
pub open spec fn le_bytes(n: nat, width: nat) -> Seq<u8>
    decreases width,
{
    if width == 0 {
        Seq::empty()
    } else {
        seq![(n % 256) as u8] + le_bytes(n / 256, (width - 1) as nat)
    }
}

/// The identity of a stream: the hash of the port, a hash of the time, and the port.
pub open spec fn replid_text(port: u16, stamp: u64) -> Seq<char> {
    hex_text(fx_hashed(port_bytes(port), true) as nat, 16) + hex_text(stamp as nat, 16)
        + hex_text(port as nat, 8)
}

/// The identity of a stream of the server at `port`, for a hash of the time.
pub fn replication_id(port: u16, stamp: u64) -> (r: String)
    ensures
        r@ == replid_text(port, stamp),
{
    let low_first: Vec<u8> = vec![(port % 256) as u8, (port / 256) as u8];
    assert(low_first@ =~= port_bytes(port));
    let place: u64 = fx_hash(low_first.as_slice());
    let mut id: String = String::new();
    append_hex(&mut id, place, 16);
    append_hex(&mut id, stamp, 16);
    append_hex(&mut id, port as u64, 8);
    assert(id@ =~= replid_text(port, stamp));
    id
}

/// A hash of the time, given in nanoseconds: that of its sixteen bytes, the low one first, by either
/// byte order of a machine.
pub open spec fn stamps(now_nanos: u128, stamp: u64) -> bool {
    let low_first = le_bytes(now_nanos as nat, 16);
    stamp == fx_hashed(low_first, true) || stamp == fx_hashed(low_first, false)
}

/// A hash of the time, given in nanoseconds.
fn time_stamp(now_nanos: u128) -> (r: u64)
    ensures
        stamps(now_nanos, r),
{
    let mut low_first: Vec<u8> = Vec::new();
    let mut rest: u128 = now_nanos;
    while low_first.len() < 16
        invariant
            low_first@.len() <= 16,
            le_bytes(now_nanos as nat, 16) == low_first@ + le_bytes(
                rest as nat,
                (16 - low_first@.len()) as nat,
            ),
        decreases 16 - low_first@.len(),
    {
        let ghost before = low_first@;
        low_first.push((rest % 256) as u8);
        proof {
            let width = (16 - before.len()) as nat;
            assert(le_bytes(rest as nat, width) == seq![(rest % 256) as u8] + le_bytes(
                rest as nat / 256,
                (width - 1) as nat,
            ));
            assert(before + (seq![(rest % 256) as u8] + le_bytes(
                rest as nat / 256,
                (width - 1) as nat,
            )) =~= low_first@ + le_bytes(rest as nat / 256, (width - 1) as nat));
        }
        rest = rest / 256;
    }
    assert(low_first@ =~= le_bytes(now_nanos as nat, 16));
    fx_hash(low_first.as_slice())
}

/// The replication of a server.
pub struct ReplicationHub {
    pub port: u16,
    pub role: ReplicationRole,
    pub master_replid: String,
    pub master_repl_offset: u64,
    pub slave: bool,
    pub has_replicas: bool,
    pub backlog_active: bool,
    pub backlog: ReplicationBacklog,
    pub replicas: HashMap<u64, ConnectedReplica>,
    pub cancel_sync: Option<Sender<()>>,
    pub shard_flows: ShardFlows,
    pub has_shard_flows: bool,
    pub activated: bool,
}

/// The identity and the last offset of the stream that a server followed before it became a
/// master.
pub open spec fn inherited(role: Role) -> (Seq<char>, i64) {
    match role {
        Role::Slave { master_replid, master_repl_offset, .. } if master_replid.len() > 0 => (
            master_replid,
            master_repl_offset as i64,
        ),
        _ => (no_replid(), -1i64),
    }
}

/// A role whose link, if it has one, is in a state.
pub open spec fn with_link(role: Role, status: Seq<char>) -> Role {
    match role {
        Role::Slave {
            master_host,
            master_port,
            master_repl_offset,
            master_replid,
            sync_in_progress,
            ..
        } => Role::Slave {
            master_host,
            master_port,
            link_status: status,
            master_repl_offset,
            master_replid,
            sync_in_progress,
        },
        master => master,
    }
}

/// A role whose link, if it has one, is up, with a stream at an offset.
pub open spec fn linked_up(role: Role, replid: Seq<char>, offset: u64) -> Role {
    match role {
        Role::Slave { master_host, master_port, .. } => Role::Slave {
            master_host,
            master_port,
            link_status: "up"@,
            master_repl_offset: offset,
            master_replid: replid,
            sync_in_progress: false,
        },
        master => master,
    }
}

/// A role that has followed its stream, if it has one, up to an offset.
pub open spec fn followed_to(role: Role, offset: u64) -> Role {
    match role {
        Role::Slave {
            master_host,
            master_port,
            link_status,
            master_replid,
            sync_in_progress,
            ..
        } => Role::Slave {
            master_host,
            master_port,
            link_status,
            master_repl_offset: offset,
            master_replid,
            sync_in_progress,
        },
        master => master,
    }
}

/// What a server remembers of a master's stream, when it is told to follow a master.
pub open spec fn remembered(role: Role, host: Seq<char>, port: u16) -> (Seq<char>, u64) {
    match role {
        Role::Slave {
            master_host,
            master_port,
            master_replid,
            master_repl_offset,
            ..
        } if master_host
            == host && master_port == port => (master_replid, master_repl_offset),
        _ => (Seq::empty(), 0u64),
    }
}

/// The identity and the offset from which a server asks to go on.
pub open spec fn resume_point(role: Role) -> (Seq<char>, u64) {
    match role {
        Role::Slave { master_replid, master_repl_offset, .. } => (
            master_replid,
            master_repl_offset,
        ),
        _ => (Seq::empty(), 0u64),
    }
}

/// A hub before and after bytes were taken into its stream.
pub open spec fn recorded(before: ReplicationHub, after: ReplicationHub, data: Seq<u8>) -> bool {
    if before.backlog_active {
        &&& after.master_repl_offset == before.master_repl_offset.wrapping_add(data.len() as u64)
        &&& appended(before.backlog, after.backlog, data, after.master_repl_offset)
    } else {
        &&& after.master_repl_offset == before.master_repl_offset
        &&& after.backlog == before.backlog
    }
}

/// The replication of a server that follows nobody and is followed by nobody, and has a stream of a
/// new identity, made of its port and the time.
pub open spec fn fresh(hub: ReplicationHub, port: u16, now_nanos: u128) -> bool {
    &&& hub.wf()
    &&& hub.port == port
    &&& exists|stamp: u64| #[trigger]
        stamps(now_nanos, stamp) && hub.master_replid@ == replid_text(port, stamp)
    &&& hub.role@ == (Role::Master {
        replid: hub.master_replid@,
        replid2: no_replid(),
        second_offset: -1i64,
    })
    &&& hub.master_repl_offset == 0
    &&& !hub.slave
    &&& !hub.has_replicas
    &&& hub.backlog_active
    &&& hub.backlog@ == Seq::<u8>::empty()
    &&& hub.backlog.buffer@ == Seq::new(BACKLOG_SIZE as nat, |i: int| 0u8)
    &&& hub.backlog.write_idx == 0
    &&& hub.backlog.max_size == BACKLOG_SIZE
    &&& hub.backlog.first_byte_offset == 1
    &&& hub.replicas@ == Map::<u64, ConnectedReplica>::empty()
    &&& hub.cancel_sync is None
    &&& hub.shard_flows@ == Map::<(usize, u64), ShardReplicaFlow>::empty()
    &&& hub.shard_flows.shards() == Set::<usize>::empty()
    &&& !hub.has_shard_flows
    &&& !hub.activated
}

/// Those who were let go because nobody listened there any more: replicas, and the flows of shards.
pub struct Lost {
    pub replicas: HashMap<u64, ConnectedReplica>,
    pub flows: ShardFlows,
}

impl Lost {
    /// Nobody.
    fn new() -> (r: Self)
        ensures
            r.nobody(),
    {
        Lost { replicas: HashMap::new(), flows: ShardFlows::new() }
    }

    /// Nobody was let go.
    pub open spec fn nobody(self) -> bool {
        &&& self.replicas@ == Map::<u64, ConnectedReplica>::empty()
        &&& self.flows@ == Map::<(usize, u64), ShardReplicaFlow>::empty()
    }
}

/// A hub before and after its replicas, and the flows of a shard or all flows, were handed bytes
/// once each. Nobody else was handed anything.
pub open spec fn fed(
    before: ReplicationHub,
    after: ReplicationHub,
    shard: Option<usize>,
    data: Seq<u8>,
    lost: Lost,
) -> bool {
    &&& if before.has_replicas {
        replicas_fed(before.replicas@, after.replicas@, lost.replicas@, data)
    } else {
        after.replicas == before.replicas && lost.replicas@ == Map::<u64, ConnectedReplica>::empty()
    }
    &&& if before.has_shard_flows {
        &&& flows_fed(before.shard_flows@, after.shard_flows@, lost.flows@, shard, data)
        &&& after.shard_flows.shards() == before.shard_flows.shards()
    } else {
        after.shard_flows == before.shard_flows && lost.flows@ == Map::<
            (usize, u64),
            ShardReplicaFlow,
        >::empty()
    }
}

/// A hub before and after bytes were propagated. A server that follows another does nothing, nor one
/// that neither keeps its stream nor has a replica.
pub open spec fn propagated(
    before: ReplicationHub,
    after: ReplicationHub,
    data: Seq<u8>,
    lost: Lost,
) -> bool {
    &&& after.wf()
    &&& after == (ReplicationHub {
        master_repl_offset: after.master_repl_offset,
        backlog: after.backlog,
        replicas: after.replicas,
        shard_flows: after.shard_flows,
        ..before
    })
    &&& if before.slave || (!before.backlog_active && !before.has_replicas) {
        &&& after == before
        &&& lost.nobody()
    } else {
        &&& recorded(before, after, data)
        &&& fed(before, after, None, data, lost)
    }
}

/// A hub before and after bytes of a shard were propagated. A server that follows another does
/// nothing.
pub open spec fn propagated_shard(
    before: ReplicationHub,
    after: ReplicationHub,
    shard: usize,
    data: Seq<u8>,
    lost: Lost,
) -> bool {
    &&& after.wf()
    &&& after == (ReplicationHub {
        master_repl_offset: after.master_repl_offset,
        backlog: after.backlog,
        replicas: after.replicas,
        shard_flows: after.shard_flows,
        ..before
    })
    &&& if before.slave {
        &&& after == before
        &&& lost.nobody()
    } else {
        &&& recorded(before, after, data)
        &&& fed(before, after, Some(shard), data, lost)
    }
}

/// A hub before and after it took on a replica, to whose sending end nothing was handed yet, in
/// place of the one of the same number.
pub open spec fn joined(
    before: ReplicationHub,
    after: ReplicationHub,
    id: u64,
    sender: Sender<Vec<u8>>,
) -> bool {
    &&& after == (ReplicationHub {
        replicas: after.replicas,
        has_replicas: true,
        backlog_active: true,
        activated: true,
        ..before
    })
    &&& after.replicas@ == before.replicas@.insert(id, after.replicas@[id])
    &&& after.replicas@[id] == (ConnectedReplica {
        id,
        sender: after.replicas@[id].sender,
        listening_port: 0,
        ack_offset: 0,
        last_ack_time: 0,
    })
    &&& after.replicas@[id].sender.end() == sender
    &&& after.replicas@[id].sender.sent() == Seq::<(Seq<u8>, bool)>::empty()
}

/// A hub before and after a replica asked to go on from an offset of a stream, and what it was
/// told: the identity of the server's stream and what the replica lacks of it, if it can go on.
pub open spec fn resynced(
    before: ReplicationHub,
    after: ReplicationHub,
    id: u64,
    sender: Sender<Vec<u8>>,
    replid: Seq<char>,
    offset: i64,
    told: Option<(Seq<char>, Seq<u8>)>,
) -> bool {
    match told {
        Some((current, diff)) => {
            &&& before.resumption(replid, offset) == Some(diff)
            &&& before.role@ matches Role::Master { replid: own, .. } && current == own
            &&& joined(before, after, id, sender)
        },
        None => {
            &&& before.resumption(replid, offset) is None
            &&& after == before
        },
    }
}

impl ReplicationHub {
    /// The backlog is sound, and has room.
    pub open spec fn wf(&self) -> bool {
        &&& self.backlog.wf()
        &&& self.backlog.max_size > 0
    }

    /// The backlog keeps nothing, or ends where the stream does.
    pub open spec fn in_step(&self) -> bool {
        self.backlog.len > 0 ==> self.backlog.first_byte_offset >= 1
            && self.backlog.first_byte_offset + self.backlog.len == self.master_repl_offset + 1
    }

    /// Whether a stream that a replica followed is one of this server's, at an offset that it has
    /// in common with it.
    pub open spec fn owns(&self, replid: Seq<char>, offset: i64) -> bool {
        match self.role@ {
            Role::Master { replid: current, replid2, second_offset } => replid == current || replid
                == self.master_replid@ || (replid2.len() > 0 && replid == replid2 && second_offset
                >= 0 && offset <= second_offset),
            _ => false,
        }
    }

    /// Whether a replica can go on from an offset of a stream.
    pub open spec fn resumes(&self, replid: Seq<char>, offset: i64) -> bool {
        &&& offset >= 0
        &&& self.owns(replid, offset)
        &&& self.backlog.reaches((offset + 1) as u64, self.master_repl_offset)
    }

    /// What a replica lacks that goes on from an offset of a stream, if it can.
    pub open spec fn resumption(&self, replid: Seq<char>, offset: i64) -> Option<Seq<u8>> {
        if self.resumes(replid, offset) {
            self.backlog.diff((offset + 1) as u64, self.master_repl_offset)
        } else {
            None
        }
    }

    /// The replication of a server that follows nobody and is followed by nobody.
    pub fn new(port: u16, now_nanos: u128) -> (r: Self)
        ensures
            fresh(r, port, now_nanos),
    {
        let stamp: u64 = time_stamp(now_nanos);
        let replid: String = replication_id(port, stamp);
        ReplicationHub {
            port,
            role: ReplicationRole::Master {
                replid: replid.clone(),
                replid2: "0000000000000000000000000000000000000000".to_owned(),
                second_offset: -1,
            },
            master_replid: replid,
            master_repl_offset: 0,
            slave: false,
            has_replicas: false,
            backlog_active: true,
            backlog: ReplicationBacklog::new(BACKLOG_SIZE),
            replicas: HashMap::new(),
            cancel_sync: None,
            shard_flows: ShardFlows::new(),
            has_shard_flows: false,
            activated: false,
        }
    }

    /// Whether the server is a master.
    pub fn is_master(&self) -> (r: bool)
        ensures
            r == !self.slave,
    {
        !self.slave
    }

    /// Whether the server follows a master.
    pub fn is_slave(&self) -> (r: bool)
        ensures
            r == self.slave,
    {
        self.slave
    }

    /// Makes the server a master, with a stream of a new identity. Where it followed another, it
    /// takes over that one's identity and offset as its second.
    pub fn make_master(&mut self, now_nanos: u128)
        ensures
            *final(self) == (ReplicationHub {
                role: final(self).role,
                master_repl_offset: if inherited(old(self).role@).1 >= 0 {
                    inherited(old(self).role@).1 as u64
                } else {
                    old(self).master_repl_offset
                },
                slave: false,
                ..*old(self)
            }),
            exists|stamp: u64| #[trigger]
                stamps(now_nanos, stamp) && final(self).role@ == (Role::Master {
                    replid: replid_text(old(self).port, stamp),
                    replid2: inherited(old(self).role@).0,
                    second_offset: inherited(old(self).role@).1,
                }),
            promoted(*old(self), *final(self)),
    {
        let stamp: u64 = time_stamp(now_nanos);
        let replid: String = replication_id(self.port, stamp);
        let (replid2, second_offset): (String, i64) = match &self.role {
            ReplicationRole::Slave { master_replid, master_repl_offset, .. } => {
                if !master_replid.as_str().is_empty() {
                    (master_replid.clone(), *master_repl_offset as i64)
                } else {
                    ("0000000000000000000000000000000000000000".to_owned(), -1)
                }
            },
            _ => ("0000000000000000000000000000000000000000".to_owned(), -1),
        };
        if second_offset >= 0 {
            self.master_repl_offset = second_offset as u64;
        }
        self.role = ReplicationRole::Master { replid, replid2, second_offset };
        self.slave = false;
        assert(self.role@ == (Role::Master {
            replid: replid_text(old(self).port, stamp),
            replid2: inherited(old(self).role@).0,
            second_offset: inherited(old(self).role@).1,
        }));
    }

    /// Takes out what ends the synchronisation that goes on, if one does, for a signal to be sent
    /// through it.
    pub fn stop_sync(&mut self) -> (r: Option<Sender<()>>)
        ensures
            r == old(self).cancel_sync,
            *final(self) == (ReplicationHub { cancel_sync: None, ..*old(self) }),
    {
        let cancel = self.cancel_sync.take();
        cancel
    }

    /// Makes the server follow a master. Where it already followed the same one, it remembers how
    /// far.
    pub fn begin_sync(&mut self, host: String, port: u16, cancel: Sender<()>)
        ensures
            *final(self) == (ReplicationHub {
                role: final(self).role,
                slave: true,
                cancel_sync: Some(cancel),
                ..*old(self)
            }),
            final(self).role@ == (Role::Slave {
                master_host: host@,
                master_port: port,
                link_status: "connecting"@,
                master_repl_offset: remembered(old(self).role@, host@, port).1,
                master_replid: remembered(old(self).role@, host@, port).0,
                sync_in_progress: true,
            }),
            follows_anew(*old(self), *final(self), host@, port),
    {
        let (replid, offset): (String, u64) = match &self.role {
            ReplicationRole::Slave {
                master_host,
                master_port,
                master_replid,
                master_repl_offset,
                ..
            } => {
                if same_text(master_host.as_str(), host.as_str()) && *master_port == port {
                    (master_replid.clone(), *master_repl_offset)
                } else {
                    (String::new(), 0)
                }
            },
            _ => (String::new(), 0),
        };
        self.slave = true;
        self.role = ReplicationRole::Slave {
            master_host: host,
            master_port: port,
            link_status: "connecting".to_owned(),
            master_repl_offset: offset,
            master_replid: replid,
            sync_in_progress: true,
        };
        self.cancel_sync = Some(cancel);
    }

    /// Notes the state of the link, if there is one.
    pub fn set_link(&mut self, status: &str)
        ensures
            *final(self) == (ReplicationHub { role: final(self).role, ..*old(self) }),
            final(self).role@ == with_link(old(self).role@, status@),
    {
        match &mut self.role {
            ReplicationRole::Slave { link_status, .. } => {
                *link_status = status.to_owned();
            },
            _ => {},
        }
    }

    /// Notes that the link, if there is one, is up, with a stream at an offset.
    pub fn link_up(&mut self, replid: String, offset: u64)
        ensures
            *final(self) == (ReplicationHub { role: final(self).role, ..*old(self) }),
            final(self).role@ == linked_up(old(self).role@, replid@, offset),
    {
        match &mut self.role {
            ReplicationRole::Slave {
                link_status,
                master_repl_offset,
                master_replid,
                sync_in_progress,
                ..
            } => {
                *link_status = "up".to_owned();
                *master_repl_offset = offset;
                *master_replid = replid;
                *sync_in_progress = false;
            },
            _ => {},
        }
    }

    /// Notes that the stream, if there is one, has been followed up to an offset.
    pub fn follow_to(&mut self, offset: u64)
        ensures
            *final(self) == (ReplicationHub { role: final(self).role, ..*old(self) }),
            final(self).role@ == followed_to(old(self).role@, offset),
    {
        match &mut self.role {
            ReplicationRole::Slave { master_repl_offset, .. } => {
                *master_repl_offset = offset;
            },
            _ => {},
        }
    }

    /// The identity and the offset from which to ask to go on.
    pub fn resume_from(&self) -> (r: (String, u64))
        ensures
            (r.0@, r.1) == resume_point(self.role@),
    {
        match &self.role {
            ReplicationRole::Slave { master_replid, master_repl_offset, .. } => (
                master_replid.clone(),
                *master_repl_offset,
            ),
            _ => (String::new(), 0),
        }
    }

    /// Starts to keep the stream.
    pub fn activate_backlog(&mut self)
        ensures
            *final(self) == (ReplicationHub {
                backlog_active: true,
                activated: true,
                ..*old(self)
            }),
    {
        self.backlog_active = true;
        self.activated = true;
    }

    /// Takes on a replica that follows the whole stream.
    pub fn register_replica(&mut self, id: u64, sender: Sender<Vec<u8>>)
        ensures
            joined(*old(self), *final(self), id, sender),
    {
        self.replicas.insert(
            id,
            ConnectedReplica {
                id,
                sender: Outlet::new(sender),
                listening_port: 0,
                ack_offset: 0,
                last_ack_time: 0,
            },
        );
        self.has_replicas = true;
        self.backlog_active = true;
        self.activated = true;
    }

    /// Lets a replica go.
    pub fn unregister_replica(&mut self, id: u64)
        ensures
            *final(self) == (ReplicationHub {
                replicas: final(self).replicas,
                has_replicas: final(self).has_replicas,
                ..*old(self)
            }),
            final(self).replicas@ == old(self).replicas@.remove(id),
            final(self).has_replicas == (old(self).has_replicas && final(self).replicas@.dom()
                != Set::<u64>::empty()),
    {
        self.replicas.remove(&id);
        proof {
            if self.replicas@.dom() =~= Set::<u64>::empty() {
                assert(self.replicas@ =~= Map::<u64, ConnectedReplica>::empty());
            }
        }
        if self.replicas.is_empty() {
            assert(self.replicas@.dom() =~= Set::<u64>::empty());
            self.has_replicas = false;
        }
    }

    /// A replica, by its number.
    pub fn replica(&self, id: u64) -> (r: Option<&ConnectedReplica>)
        ensures
            match r {
                Some(rep) => self.replicas@.contains_key(id) && *rep == self.replicas@[id],
                None => !self.replicas@.contains_key(id),
            },
    {
        self.replicas.get(&id)
    }

    /// Notes how far a replica has confirmed, and when.
    pub fn update_replica_ack(&mut self, id: u64, offset: u64, now_secs: u64)
        ensures
            *final(self) == (ReplicationHub { replicas: final(self).replicas, ..*old(self) }),
            final(self).replicas@ == if old(self).replicas@.contains_key(id) {
                old(self).replicas@.insert(
                    id,
                    (ConnectedReplica {
                        ack_offset: offset,
                        last_ack_time: now_secs,
                        ..old(self).replicas@[id]
                    }),
                )
            } else {
                old(self).replicas@
            },
    {
        match self.replicas.remove(&id) {
            Some(rep) => {
                self.replicas.insert(
                    id,
                    ConnectedReplica { ack_offset: offset, last_ack_time: now_secs, ..rep },
                );
                assert(self.replicas@ =~= old(self).replicas@.insert(id, self.replicas@[id]));
            },
            None => {
                assert(self.replicas@ =~= old(self).replicas@);
            },
        }
    }

    /// Notes the port where a replica listens.
    pub fn set_replica_port(&mut self, id: u64, port: u16)
        ensures
            *final(self) == (ReplicationHub { replicas: final(self).replicas, ..*old(self) }),
            final(self).replicas@ == if old(self).replicas@.contains_key(id) {
                old(self).replicas@.insert(
                    id,
                    (ConnectedReplica { listening_port: port as u64, ..old(self).replicas@[id] }),
                )
            } else {
                old(self).replicas@
            },
    {
        match self.replicas.remove(&id) {
            Some(rep) => {
                self.replicas.insert(id, ConnectedReplica { listening_port: port as u64, ..rep });
                assert(self.replicas@ =~= old(self).replicas@.insert(id, self.replicas@[id]));
            },
            None => {
                assert(self.replicas@ =~= old(self).replicas@);
            },
        }
    }

    /// Takes on a replica that follows the stream of one shard.
    pub fn register_shard_flow(&mut self, shard_id: usize, client_id: u64, sender: Sender<Vec<u8>>)
        ensures
            *final(self) == (ReplicationHub {
                shard_flows: final(self).shard_flows,
                has_shard_flows: true,
                activated: true,
                ..*old(self)
            }),
            ({
                let flow = final(self).shard_flows@[(shard_id, client_id)];
                &&& final(self).shard_flows@ == old(self).shard_flows@.insert(
                    (shard_id, client_id),
                    flow,
                )
                &&& flow == (ShardReplicaFlow {
                    client_id,
                    shard_id,
                    sender: flow.sender,
                    lsn: 0,
                    ack_lsn: 0,
                })
                &&& flow.sender.end() == sender
                &&& flow.sender.sent() == Seq::<(Seq<u8>, bool)>::empty()
            }),
            final(self).shard_flows.shards() == old(self).shard_flows.shards().insert(shard_id),
    {
        self.shard_flows.insert(
            ShardReplicaFlow {
                client_id,
                shard_id,
                sender: Outlet::new(sender),
                lsn: 0,
                ack_lsn: 0,
            },
        );
        self.has_shard_flows = true;
        self.activated = true;
    }

    /// Lets a replica of one shard go.
    pub fn unregister_shard_flow(&mut self, shard_id: usize, client_id: u64)
        ensures
            *final(self) == (ReplicationHub {
                shard_flows: final(self).shard_flows,
                has_shard_flows: final(self).shard_flows.shards() != Set::<usize>::empty(),
                ..*old(self)
            }),
            final(self).shard_flows@ == old(self).shard_flows@.remove((shard_id, client_id)),
            final(self).shard_flows.shards() == if exists|c: u64|
                final(self).shard_flows@.contains_key((shard_id, c)) {
                old(self).shard_flows.shards()
            } else {
                old(self).shard_flows.shards().remove(shard_id)
            },
    {
        self.shard_flows.remove(shard_id, client_id);
        self.has_shard_flows = !self.shard_flows.is_empty();
    }

    /// Notes how far a replica of one shard has confirmed.
    pub fn update_shard_flow_ack(&mut self, shard_id: usize, client_id: u64, ack_lsn: u64)
        ensures
            *final(self) == (ReplicationHub { shard_flows: final(self).shard_flows, ..*old(self) }),
            final(self).shard_flows@ == if old(self).shard_flows@.contains_key(
                (shard_id, client_id),
            ) {
                old(self).shard_flows@.insert(
                    (shard_id, client_id),
                    (ShardReplicaFlow { ack_lsn, ..old(self).shard_flows@[(shard_id, client_id)] }),
                )
            } else {
                old(self).shard_flows@
            },
            final(self).shard_flows.shards() == old(self).shard_flows.shards(),
    {
        self.shard_flows.acknowledge(shard_id, client_id, ack_lsn);
    }

    /// Whether the server owns a stream at an offset, and the identity of its own.
    fn identify(&self, req_replid: &str, req_offset: i64) -> (r: Option<String>)
        ensures
            match r {
                Some(id) => {
                    &&& self.owns(req_replid@, req_offset)
                    &&& self.role@ matches Role::Master { replid, .. } && id@ == replid
                },
                None => !self.owns(req_replid@, req_offset),
            },
    {
        match &self.role {
            ReplicationRole::Master { replid, replid2, second_offset } => {
                if same_text(req_replid, replid.as_str()) || same_text(
                    req_replid,
                    self.master_replid.as_str(),
                ) || (!replid2.as_str().is_empty() && same_text(req_replid, replid2.as_str())
                    && *second_offset >= 0 && req_offset <= *second_offset) {
                    Some(replid.clone())
                } else {
                    None
                }
            },
            _ => None,
        }
    }

    /// Takes on a replica that can go on from an offset of a stream, and gives the identity of the
    /// server's stream and what the replica lacks of it.
    pub fn try_partial_resync(
        &mut self,
        client_id: u64,
        sender: Sender<Vec<u8>>,
        req_replid: &str,
        req_offset: i64,
    ) -> (r: Option<(String, Vec<u8>)>)
        requires
            old(self).wf(),
            req_offset >= 0 && old(self).owns(req_replid@, req_offset) ==> old(
                self,
            ).master_repl_offset < u64::MAX,
        ensures
            resynced(
                *old(self),
                *final(self),
                client_id,
                sender,
                req_replid@,
                req_offset,
                match r {
                    Some((id, diff)) => Some((id@, diff@)),
                    None => None,
                },
            ),
    {
        if req_offset < 0 {
            return None;
        }
        let target: u64 = (req_offset as u64) + 1;
        let id: String = match self.identify(req_replid, req_offset) {
            Some(id) => id,
            None => {
                return None;
            },
        };
        if !self.backlog.can_partial_sync(target, self.master_repl_offset) {
            return None;
        }
        let diff: Vec<u8> = match self.backlog.get_diff(target, self.master_repl_offset) {
            Some(diff) => diff,
            None => {
                return None;
            },
        };
        self.register_replica(client_id, sender);
        Some((id, diff))
    }

    /// Whether a replica can go on from an offset of a stream.
    pub fn can_partial_resync(&self, req_replid: &str, req_offset: i64) -> (r: bool)
        requires
            req_offset >= 0 && self.owns(req_replid@, req_offset) ==> self.master_repl_offset
                < u64::MAX,
        ensures
            r == self.resumes(req_replid@, req_offset),
    {
        if req_offset < 0 {
            return false;
        }
        let target: u64 = (req_offset as u64) + 1;
        match self.identify(req_replid, req_offset) {
            Some(_) => self.backlog.can_partial_sync(target, self.master_repl_offset),
            None => false,
        }
    }

    /// Takes bytes into the stream.
    fn record(&mut self, bytes: &[u8])
        requires
            old(self).wf(),
        ensures
            final(self).wf(),
            recorded(*old(self), *final(self), bytes@),
            *final(self) == (ReplicationHub {
                master_repl_offset: final(self).master_repl_offset,
                backlog: final(self).backlog,
                ..*old(self)
            }),
    {
        if self.backlog_active {
            let offset: u64 = self.master_repl_offset.wrapping_add(bytes.len() as u64);
            self.master_repl_offset = offset;
            self.backlog.append(bytes, offset);
        }
    }

    /// Takes bytes into the stream, and hands them to the replicas, whole and by shard. Replicas
    /// where nobody listens any more are let go. A server that follows another does none of this,
    /// nor one that neither keeps its stream nor has a replica.
    pub fn propagate(&mut self, bytes: &[u8]) -> (r: Lost)
        requires
            old(self).wf(),
        ensures
            propagated(*old(self), *final(self), bytes@, r),
    {
        let mut lost = Lost::new();
        if self.slave {
            return lost;
        }
        if !self.backlog_active && !self.has_replicas {
            return lost;
        }
        self.record(bytes);
        if self.has_replicas {
            lost.replicas = feed_replicas(&mut self.replicas, bytes);
        }
        if self.has_shard_flows {
            lost.flows = self.shard_flows.feed_all(bytes);
        }
        lost
    }

    /// Takes bytes of a shard into the stream, and hands them to the replicas and to the flows of
    /// that shard. Those where nobody listens any more are let go. A server that follows another
    /// does none of this.
    pub fn propagate_shard(&mut self, shard_id: usize, bytes: &[u8]) -> (r: Lost)
        requires
            old(self).wf(),
        ensures
            propagated_shard(*old(self), *final(self), shard_id, bytes@, r),
    {
        let mut lost = Lost::new();
        if self.slave {
            return lost;
        }
        self.record(bytes);
        if self.has_replicas {
            lost.replicas = feed_replicas(&mut self.replicas, bytes);
        }
        if self.has_shard_flows {
            lost.flows = self.shard_flows.feed_shard(shard_id, bytes);
        }
        lost
    }
}

/// A stream that is propagated is recorded: where the backlog records the stream so far, at the
/// offset of its last byte, it does so after every propagation too.
pub proof fn law_propagated_stream_is_recorded(
    before: ReplicationHub,
    after: ReplicationHub,
    stream: Seq<u8>,
    data: Seq<u8>,
)
    requires
        before.backlog_active,
        records(before.backlog, stream),
        before.master_repl_offset == stream.len(),
        stream.len() + data.len() <= u64::MAX,
        recorded(before, after, data),
    ensures
        records(after.backlog, stream + data),
        after.master_repl_offset == (stream + data).len(),
{
    crate::backlog::law_append_records(before.backlog, after.backlog, stream, data);
}

/// A backlog that keeps step with the stream does so after every propagation too.
pub proof fn law_backlog_keeps_step(before: ReplicationHub, after: ReplicationHub, data: Seq<u8>)
    requires
        before.wf(),
        before.in_step(),
        before.master_repl_offset + data.len() <= u64::MAX,
        recorded(before, after, data),
    ensures
        after.in_step(),
{
}

/// A replica is taken on exactly where it can go on, and is given as many bytes as it is behind.
pub proof fn law_resumed_where_possible(hub: ReplicationHub, replid: Seq<char>, offset: i64)
    requires
        hub.wf(),
        hub.in_step(),
    ensures
        hub.resumption(replid, offset) is Some <==> hub.resumes(replid, offset),
        hub.resumption(replid, offset) matches Some(diff) ==> diff.len() == hub.master_repl_offset
            - offset,
{
}

/// What a replica is told that asks to go on. It is taken on exactly where it can go on, so neither
/// at a negative offset nor for a stream that the server does not own, nor by a server that follows
/// another, nor at an offset past the server's own. It is told the identity of the server's stream
/// and as many bytes as it is behind; and where it is not taken on, nothing changes.
pub proof fn law_partial_resync(
    before: ReplicationHub,
    after: ReplicationHub,
    id: u64,
    sender: Sender<Vec<u8>>,
    replid: Seq<char>,
    offset: i64,
    told: Option<(Seq<char>, Seq<u8>)>,
)
    requires
        before.wf(),
        before.in_step(),
        resynced(before, after, id, sender, replid, offset, told),
    ensures
        told is Some <==> before.resumes(replid, offset),
        offset < 0 || !before.owns(replid, offset) || before.role@ is Slave || offset
            > before.master_repl_offset ==> told is None,
        told is None ==> after == before,
        told matches Some((current, diff)) ==> {
            &&& before.role@ is Master && current == before.role@->replid
            &&& diff.len() == before.master_repl_offset - offset
            &&& joined(before, after, id, sender)
            &&& after.replicas@.contains_key(id)
        },
{
    law_resumed_where_possible(before, replid, offset);
}

/// Where the backlog records the stream, a replica that can go on is given exactly what it lacks:
/// the stream from the byte behind its offset.
pub proof fn law_resumption_completes(
    hub: ReplicationHub,
    stream: Seq<u8>,
    replid: Seq<char>,
    offset: i64,
)
    requires
        records(hub.backlog, stream),
        hub.master_repl_offset == stream.len(),
        stream.len() < u64::MAX,
        hub.resumes(replid, offset),
    ensures
        hub.resumption(replid, offset) == Some(stream.skip(offset as int)),
{
    crate::backlog::law_diff_is_what_is_missing(hub.backlog, stream, (offset + 1) as u64);
}

/// A server that is promoted still serves the replicas of the master that it followed, up to the
/// offset where it left that one's stream.
pub proof fn law_promotion_keeps_the_stream(
    before: ReplicationHub,
    after: ReplicationHub,
    stamp: u64,
    offset: i64,
)
    requires
        before.role@ is Slave,
        before.role@->master_replid.len() > 0,
        before.role@->master_repl_offset <= i64::MAX,
        after.role@ == (Role::Master {
            replid: replid_text(before.port, stamp),
            replid2: inherited(before.role@).0,
            second_offset: inherited(before.role@).1,
        }),
        0 <= offset <= before.role@->master_repl_offset,
    ensures
        after.owns(before.role@->master_replid, offset),
{
}

/// What a change of the link changes of a role that follows: the state of the link; or, when it comes
/// up, that with the identity and the offset of the stream, and no transfer goes on; or, as the stream
/// goes on, the offset alone. The server that is followed stays the same. A role that is followed is
/// not changed by any of them.
pub proof fn law_links_change_their_own(
    host: Seq<char>,
    port: u16,
    link: Seq<char>,
    offset: u64,
    replid: Seq<char>,
    syncing: bool,
    status: Seq<char>,
    new_offset: u64,
    new_replid: Seq<char>,
    second: i64,
)
    ensures
        ({
            let role = Role::Slave {
                master_host: host,
                master_port: port,
                link_status: link,
                master_repl_offset: offset,
                master_replid: replid,
                sync_in_progress: syncing,
            };
            let master = Role::Master { replid, replid2: new_replid, second_offset: second };
            &&& with_link(role, status) == Role::Slave {
                master_host: host,
                master_port: port,
                link_status: status,
                master_repl_offset: offset,
                master_replid: replid,
                sync_in_progress: syncing,
            }
            &&& linked_up(role, new_replid, new_offset) == Role::Slave {
                master_host: host,
                master_port: port,
                link_status: "up"@,
                master_repl_offset: new_offset,
                master_replid: new_replid,
                sync_in_progress: false,
            }
            &&& followed_to(role, new_offset) == Role::Slave {
                master_host: host,
                master_port: port,
                link_status: link,
                master_repl_offset: new_offset,
                master_replid: replid,
                sync_in_progress: syncing,
            }
            &&& with_link(master, status) == master
            &&& linked_up(master, new_replid, new_offset) == master
            &&& followed_to(master, new_offset) == master
        }),
{
}

/// What a server remembers of a stream is what it followed of the same master, and nothing of another;
/// it asks to go on from where it left; and when it is promoted it keeps the stream as its second
/// one, up to that offset, or none where it followed none.
pub proof fn law_streams_are_remembered(
    host: Seq<char>,
    port: u16,
    link: Seq<char>,
    offset: u64,
    replid: Seq<char>,
    syncing: bool,
    other_host: Seq<char>,
    other_port: u16,
)
    ensures
        ({
            let role = Role::Slave {
                master_host: host,
                master_port: port,
                link_status: link,
                master_repl_offset: offset,
                master_replid: replid,
                sync_in_progress: syncing,
            };
            &&& remembered(role, host, port) == (replid, offset)
            &&& (other_host != host || other_port != port) ==> remembered(
                role,
                other_host,
                other_port,
            ) == (Seq::<char>::empty(), 0u64)
            &&& resume_point(role) == (replid, offset)
            &&& replid.len() > 0 ==> inherited(role) == (replid, offset as i64)
            &&& replid.len() == 0 ==> inherited(role) == (no_replid(), -1i64)
            &&& no_replid() == Seq::new(40, |i: int| '0')
        }),
{
    reveal_strlit("0000000000000000000000000000000000000000");
    assert(no_replid() =~= Seq::new(40, |i: int| '0'));
}

/// A hub before and after it was told to follow a master.
pub open spec fn follows_anew(
    before: ReplicationHub,
    after: ReplicationHub,
    host: Seq<char>,
    port: u16,
) -> bool {
    &&& after.slave
    &&& after.role@ == (Role::Slave {
        master_host: host,
        master_port: port,
        link_status: "connecting"@,
        master_repl_offset: remembered(before.role@, host, port).1,
        master_replid: remembered(before.role@, host, port).0,
        sync_in_progress: true,
    })
    &&& after.replicas == before.replicas
    &&& after.backlog == before.backlog
    &&& after.master_repl_offset == before.master_repl_offset
}

/// A hub before and after it became a master.
pub open spec fn promoted(before: ReplicationHub, after: ReplicationHub) -> bool {
    &&& !after.slave
    &&& after.role@ is Master
    &&& after.role@->replid2 == inherited(before.role@).0
    &&& after.role@->second_offset == inherited(before.role@).1
    &&& after.master_repl_offset == if inherited(before.role@).1 >= 0 {
        inherited(before.role@).1 as u64
    } else {
        before.master_repl_offset
    }
    &&& after.replicas == before.replicas
    &&& after.backlog == before.backlog
}

/// A server that is told to follow a master follows it, from where it left that one's stream, or from
/// nowhere where it followed another or none; it keeps its replicas and its own stream.
pub proof fn law_following_starts_where_it_left(
    before: ReplicationHub,
    after: ReplicationHub,
    host: Seq<char>,
    port: u16,
)
    requires
        follows_anew(before, after, host, port),
    ensures
        after.slave && after.role@ is Slave,
        after.role@->master_host == host && after.role@->master_port == port,
        after.role@->link_status == "connecting"@ && after.role@->sync_in_progress,
        before.role@ is Slave && before.role@->master_host == host && before.role@->master_port
            == port ==> after.role@->master_repl_offset == before.role@->master_repl_offset
            && after.role@->master_replid == before.role@->master_replid,
        before.role@ is Slave && (before.role@->master_host != host || before.role@->master_port
            != port) ==> after.role@->master_repl_offset == 0 && after.role@->master_replid.len()
            == 0,
        before.role@ is Master ==> after.role@->master_repl_offset == 0
            && after.role@->master_replid.len() == 0,
        after.replicas == before.replicas && after.backlog == before.backlog,
{
}

/// A server that is promoted goes on with the offset of the stream that it followed, and remembers that
/// stream up to there; one that followed none keeps its own offset and remembers none.
pub proof fn law_promotion_goes_on(before: ReplicationHub, after: ReplicationHub)
    requires
        promoted(before, after),
    ensures
        !after.slave && after.role@ is Master,
        before.role@ is Slave && before.role@->master_replid.len() > 0
            && before.role@->master_repl_offset <= i64::MAX ==> after.role@->replid2
            == before.role@->master_replid && after.role@->second_offset
            == before.role@->master_repl_offset && after.master_repl_offset
            == before.role@->master_repl_offset,
        before.role@ is Master || before.role@->master_replid.len() == 0
            ==> after.role@->second_offset == -1 && after.master_repl_offset
            == before.master_repl_offset,
        after.replicas == before.replicas && after.backlog == before.backlog,
{
}

/// Bytes that are propagated reach everybody who follows, once. Each replica of the whole stream, and
/// each flow of a shard, was handed exactly these bytes behind what it was handed before; it stays
/// where it took them and is let go where it did not; and nobody else follows afterwards. A flow has
/// moved on by their number. A server that follows another hands nothing to anybody.
pub proof fn law_propagation_reaches_everybody(
    before: ReplicationHub,
    after: ReplicationHub,
    data: Seq<u8>,
    lost: Lost,
    id: u64,
    shard: usize,
)
    requires
        propagated(before, after, data, lost),
    ensures
        before.slave ==> after == before,
        !before.slave && before.has_replicas && before.replicas@.contains_key(id) ==> {
            ||| after.replicas@.contains_key(id) && after.replicas@[id].sender.sent()
                == before.replicas@[id].sender.sent().push((data, true))
                && after.replicas@[id].sender.end() == before.replicas@[id].sender.end()
                && after.replicas@[id].ack_offset == before.replicas@[id].ack_offset
                && after.replicas@[id].listening_port == before.replicas@[id].listening_port
            ||| !after.replicas@.contains_key(id) && lost.replicas@.contains_key(id)
                && lost.replicas@[id].sender.sent() == before.replicas@[id].sender.sent().push(
                (data, false),
            )
        },
        !before.replicas@.contains_key(id) ==> !after.replicas@.contains_key(id),
        !before.slave && (before.backlog_active || before.has_replicas) && before.has_shard_flows
            && before.shard_flows@.contains_key((shard, id)) ==> {
            let k = (shard, id);
            ||| after.shard_flows@.contains_key(k) && after.shard_flows@[k].sender.sent()
                == before.shard_flows@[k].sender.sent().push((data, true))
                && after.shard_flows@[k].lsn == before.shard_flows@[k].lsn.wrapping_add(
                data.len() as u64,
            ) && after.shard_flows@[k].ack_lsn == before.shard_flows@[k].ack_lsn
            ||| !after.shard_flows@.contains_key(k) && lost.flows@.contains_key(k)
                && lost.flows@[k].sender.sent() == before.shard_flows@[k].sender.sent().push(
                (data, false),
            )
        },
        !before.shard_flows@.contains_key((shard, id)) ==> !after.shard_flows@.contains_key(
            (shard, id),
        ),
{
    let k = (shard, id);
    if !before.slave && before.has_replicas {
        assert(after.replicas@.dom().union(lost.replicas@.dom()).contains(id)
            == before.replicas@.dom().contains(id));
        assert(!(after.replicas@.dom().contains(id) && lost.replicas@.dom().contains(id)));
    }
    if !before.slave && (before.backlog_active || before.has_replicas) && before.has_shard_flows {
        assert(after.shard_flows@.dom().union(lost.flows@.dom()).contains(k)
            == before.shard_flows@.dom().contains(k));
        assert(!(after.shard_flows@.dom().contains(k) && lost.flows@.dom().contains(k)));
    }
}

/// Bytes of a shard reach every replica and the flows of that shard, once, and no flow of another.
pub proof fn law_shard_propagation_reaches_its_own(
    before: ReplicationHub,
    after: ReplicationHub,
    shard: usize,
    data: Seq<u8>,
    lost: Lost,
    id: u64,
    other: usize,
)
    requires
        propagated_shard(before, after, shard, data, lost),
    ensures
        before.slave ==> after == before,
        !before.slave && before.has_replicas && before.replicas@.contains_key(id) ==> {
            ||| after.replicas@.contains_key(id) && after.replicas@[id].sender.sent()
                == before.replicas@[id].sender.sent().push((data, true))
            ||| !after.replicas@.contains_key(id) && lost.replicas@.contains_key(id)
                && lost.replicas@[id].sender.sent() == before.replicas@[id].sender.sent().push(
                (data, false),
            )
        },
        !before.slave && before.has_shard_flows && before.shard_flows@.contains_key((shard, id))
            ==> {
            let k = (shard, id);
            ||| after.shard_flows@.contains_key(k) && after.shard_flows@[k].sender.sent()
                == before.shard_flows@[k].sender.sent().push((data, true))
                && after.shard_flows@[k].lsn == before.shard_flows@[k].lsn.wrapping_add(
                data.len() as u64,
            )
            ||| !after.shard_flows@.contains_key(k) && lost.flows@.contains_key(k)
                && lost.flows@[k].sender.sent() == before.shard_flows@[k].sender.sent().push(
                (data, false),
            )
        },
        other != shard && before.shard_flows@.contains_key((other, id))
            ==> after.shard_flows@.contains_key((other, id)) && after.shard_flows@[(other, id)]
            == before.shard_flows@[(other, id)],
{
    let k = (shard, id);
    let o = (other, id);
    if !before.slave && before.has_replicas {
        assert(after.replicas@.dom().union(lost.replicas@.dom()).contains(id)
            == before.replicas@.dom().contains(id));
        assert(!(after.replicas@.dom().contains(id) && lost.replicas@.dom().contains(id)));
    }
    if !before.slave && before.has_shard_flows {
        assert(after.shard_flows@.dom().union(lost.flows@.dom()).contains(k)
            == before.shard_flows@.dom().contains(k));
        assert(!(after.shard_flows@.dom().contains(k) && lost.flows@.dom().contains(k)));
        assert(after.shard_flows@.dom().union(lost.flows@.dom()).contains(o)
            == before.shard_flows@.dom().contains(o));
        assert(lost.flows@.contains_key(o) ==> other == shard);
    }
}

} // verus!
