//! What the servers of one process share, by port.
use std::collections::HashMap;
use vstd::prelude::*;
use vstd::std_specs::iter::IteratorSpec;

use crate::presence::{nobody, ShardedPresenceTable};
use crate::replication::{fresh, propagated, propagated_shard, Lost, ReplicationHub};

verus! {

broadcast use vstd::std_specs::hash::group_hash_axioms;

/// The presence tables of the servers: a hash map by port.
#[verifier::external_body]
pub struct PresenceTables {
    inner: hashbrown::HashMap<u16, ShardedPresenceTable>,
}

/// The presence tables, by port.
pub uninterp spec fn tables_by_port(t: PresenceTables) -> Map<u16, ShardedPresenceTable>;

impl View for PresenceTables {
    type V = Map<u16, ShardedPresenceTable>;

    open spec fn view(&self) -> Map<u16, ShardedPresenceTable> {
        tables_by_port(*self)
    }
}

impl PresenceTables {
    /// No tables.
    pub fn new() -> (r: Self)
        ensures
            r@.dom() == Set::<u16>::empty(),
    {
        PresenceTables::empty()
    }

    /// `HashMap::new`: no tables.
    #[verifier::external_body]
    fn empty() -> (r: Self)
        ensures
            tables_by_port(r).dom() == Set::<u16>::empty(),
    {
        PresenceTables { inner: hashbrown::HashMap::new() }
    }

    /// `HashMap::contains_key`: whether there is a table for a port.
    #[verifier::external_body]
    pub(crate) fn contains_key(&self, port: u16) -> (r: bool)
        ensures
            r == tables_by_port(*self).dom().contains(port),
    {
        self.inner.contains_key(&port)
    }

    /// `HashMap::insert`: gives a port its table, in place of the one it had.
    #[verifier::external_body]
    pub(crate) fn insert(&mut self, port: u16, table: ShardedPresenceTable)
        ensures
            tables_by_port(*final(self)) == tables_by_port(*old(self)).insert(port, table),
    {
        self.inner.insert(port, table);
    }

    /// `HashMap::get_mut`: the table of a port, to be changed in place. The method gives nothing
    /// where there is none.
    #[verifier::external_body]
    pub(crate) fn get_mut(&mut self, port: u16) -> (r: Option<&mut ShardedPresenceTable>)
        ensures
            match r {
                Some(table) => {
                    &&& tables_by_port(*old(self)).dom().contains(port)
                    &&& *table == tables_by_port(*old(self))[port]
                    &&& tables_by_port(*final(self)) == tables_by_port(*old(self)).insert(
                        port,
                        *final(table),
                    )
                },
                None => {
                    &&& !tables_by_port(*old(self)).dom().contains(port)
                    &&& tables_by_port(*final(self)) == tables_by_port(*old(self))
                },
            },
    {
        self.inner.get_mut(&port)
    }
}

/// The presence table of the server at a port: the one that it has, or a new one.
pub fn get_presence_table(tables: &mut PresenceTables, port: u16) -> (r:
    &mut ShardedPresenceTable)
    ensures
        old(tables)@.dom().contains(port) ==> *r == old(tables)@[port],
        !old(tables)@.dom().contains(port) ==> r@ == nobody(),
        final(tables)@ == old(tables)@.insert(port, *final(r)),
{
    if !tables.contains_key(port) {
        tables.insert(port, ShardedPresenceTable::new());
    }
    let ghost between = tables@;
    let found = tables.get_mut(port);
    assert(forall|t: ShardedPresenceTable| between.insert(port, t) =~= old(tables)@.insert(port, t));
    found.unwrap()
}

/// The replication of the servers, by port.
pub struct ReplicationHubs {
    hubs: HashMap<u16, ReplicationHub>,
}

impl View for ReplicationHubs {
    type V = Map<u16, ReplicationHub>;

    closed spec fn view(&self) -> Map<u16, ReplicationHub> {
        self.hubs@
    }
}

/// Whether any of the servers ever had to keep a stream for a replica.
pub open spec fn active(hubs: Map<u16, ReplicationHub>) -> bool {
    exists|port: u16| #[trigger] hubs.contains_key(port) && hubs[port].activated
}

/// `HashMap::get_mut` of std: the hub of a port, to be changed in place. The method gives nothing
/// where there is none.
#[verifier::external_body]
fn hub_mut(hubs: &mut HashMap<u16, ReplicationHub>, port: u16) -> (r: Option<&mut ReplicationHub>)
    ensures
        match r {
            Some(hub) => {
                &&& old(hubs)@.contains_key(port)
                &&& *hub == old(hubs)@[port]
                &&& final(hubs)@ == old(hubs)@.insert(port, *final(hub))
            },
            None => !old(hubs)@.contains_key(port) && final(hubs)@ == old(hubs)@,
        },
{
    hubs.get_mut(&port)
}

impl ReplicationHubs {
    /// Every hub is sound.
    pub open spec fn wf(&self) -> bool {
        forall|port: u16| #[trigger] self@.contains_key(port) ==> self@[port].wf()
    }

    /// No hubs.
    pub fn new() -> (r: Self)
        ensures
            r.wf(),
            r@ == Map::<u16, ReplicationHub>::empty(),
    {
        ReplicationHubs { hubs: HashMap::new() }
    }

    /// Whether any of the servers ever had to keep a stream for a replica.
    pub fn is_active(&self) -> (r: bool)
        ensures
            r == active(self@),
    {
        let mut found: bool = false;
        let ghost all = IteratorSpec::remaining(
            &vstd::std_specs::hash::spec_values_iter(&self.hubs),
        );
        for hub in it: self.hubs.values()
            invariant
                it.seq() == all,
                found == exists|j: int| 0 <= j < it.index() && (#[trigger] all[j]).activated,
        {
            if hub.activated {
                found = true;
            }
        }
        proof {
            assert(all.unref().to_set() == self.hubs@.values());
            if found {
                let j = choose|j: int| 0 <= j < all.len() && (#[trigger] all[j]).activated;
                assert(all.unref()[j] == *all[j]);
                assert(all.unref().to_set().contains(*all[j]));
                assert(self.hubs@.values().contains(*all[j]));
                let port = choose|port: u16|
                    #[trigger] self.hubs@.dom().contains(port) && self.hubs@[port] == *all[j];
                assert(self@.contains_key(port));
            }
            if active(self@) {
                let port = choose|port: u16| #[trigger]
                    self@.contains_key(port) && self@[port].activated;
                assert(self.hubs@.dom().contains(port));
                assert(self.hubs@.values().contains(self@[port]));
                assert(all.unref().contains(self@[port]));
                let j = choose|j: int|
                    0 <= j < all.unref().len() && all.unref()[j] == self@[port];
                assert(all[j].activated);
            }
        }
        found
    }
}

/// The replication of the server at a port: the one that it has, or a new one.
pub fn get_replication_hub(hubs: &mut ReplicationHubs, port: u16, now_nanos: u128) -> (r:
    &mut ReplicationHub)
    requires
        old(hubs).wf(),
    ensures
        r.wf(),
        old(hubs)@.contains_key(port) ==> *r == old(hubs)@[port],
        !old(hubs)@.contains_key(port) ==> fresh(*r, port, now_nanos),
        final(hubs)@ == old(hubs)@.insert(port, *final(r)),
{
    if !hubs.hubs.contains_key(&port) {
        hubs.hubs.insert(port, ReplicationHub::new(port, now_nanos));
    }
    let ghost between = hubs@;
    assert(between.contains_key(port));
    let found = hub_mut(&mut hubs.hubs, port);
    assert(forall|h: ReplicationHub| between.insert(port, h) =~= old(hubs)@.insert(port, h));
    found.unwrap()
}

/// Whether the server at a port has a stream to keep, for a replica that it has or may get.
pub fn has_connected_replicas(hubs: &ReplicationHubs, port: u16) -> (r: bool)
    ensures
        r == (active(hubs@) && hubs@.contains_key(port) && (hubs@[port].has_replicas
            || hubs@[port].backlog_active)),
{
    if !hubs.is_active() {
        return false;
    }
    match hubs.hubs.get(&port) {
        Some(hub) => hub.has_replicas || hub.backlog_active,
        None => false,
    }
}

/// The replication that a server at a port starts from: the one that it has, or a new one.
pub open spec fn starts_from(
    hubs: Map<u16, ReplicationHub>,
    port: u16,
    now_nanos: u128,
    before: ReplicationHub,
) -> bool {
    if hubs.contains_key(port) {
        before == hubs[port]
    } else {
        fresh(before, port, now_nanos)
    }
}

/// Propagates bytes from the server at a port, once any server is active.
pub fn propagate_bytes(
    hubs: &mut ReplicationHubs,
    port: u16,
    bytes: &[u8],
    now_nanos: u128,
) -> (r: Option<Lost>)
    requires
        old(hubs).wf(),
    ensures
        final(hubs).wf(),
        r is Some <==> active(old(hubs)@),
        r is None ==> final(hubs)@ == old(hubs)@,
        r is Some ==> final(hubs)@.dom() == old(hubs)@.dom().insert(port),
        r is Some ==> forall|other: u16|
            other != port && old(hubs)@.contains_key(other) ==> #[trigger] final(hubs)@[other]
                == old(hubs)@[other],
        r is Some ==> exists|before: ReplicationHub| #[trigger]
            starts_from(old(hubs)@, port, now_nanos, before) && propagated(
                before,
                final(hubs)@[port],
                bytes@,
                r.unwrap(),
            ),
{
    if !hubs.is_active() {
        return None;
    }
    let hub = get_replication_hub(hubs, port, now_nanos);
    let ghost before = *hub;
    let lost: Lost = hub.propagate(bytes);
    let ghost after = *hub;
    assert(hubs@[port] == after);
    assert(propagated(before, hubs@[port], bytes@, lost));
    assert(hubs@.dom() =~= old(hubs)@.dom().insert(port));
    assert(starts_from(old(hubs)@, port, now_nanos, before));
    Some(lost)
}

/// Propagates bytes of a shard from the server at a port, once any server is active.
pub fn propagate_shard_bytes(
    hubs: &mut ReplicationHubs,
    port: u16,
    shard_id: usize,
    bytes: &[u8],
    now_nanos: u128,
) -> (r: Option<Lost>)
    requires
        old(hubs).wf(),
    ensures
        final(hubs).wf(),
        r is Some <==> active(old(hubs)@),
        r is None ==> final(hubs)@ == old(hubs)@,
        r is Some ==> final(hubs)@.dom() == old(hubs)@.dom().insert(port),
        r is Some ==> forall|other: u16|
            other != port && old(hubs)@.contains_key(other) ==> #[trigger] final(hubs)@[other]
                == old(hubs)@[other],
        r is Some ==> exists|before: ReplicationHub| #[trigger]
            starts_from(old(hubs)@, port, now_nanos, before) && propagated_shard(
                before,
                final(hubs)@[port],
                shard_id,
                bytes@,
                r.unwrap(),
            ),
{
    if !hubs.is_active() {
        return None;
    }
    let hub = get_replication_hub(hubs, port, now_nanos);
    let ghost before = *hub;
    let lost: Lost = hub.propagate_shard(shard_id, bytes);
    let ghost after = *hub;
    assert(hubs@[port] == after);
    assert(propagated_shard(before, hubs@[port], shard_id, bytes@, lost));
    assert(hubs@.dom() =~= old(hubs)@.dom().insert(port));
    assert(starts_from(old(hubs)@, port, now_nanos, before));
    Some(lost)
}

} // verus!
