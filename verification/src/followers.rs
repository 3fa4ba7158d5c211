//! The replicas that follow a master, whole or shard by shard.
use std::collections::HashMap;
use vstd::prelude::*;
use vstd::std_specs::iter::IteratorSpec;

use crate::pubsub::lemma_take_one_more;
use crate::tables::Outlet;

verus! {

broadcast use vstd::std_specs::hash::group_hash_axioms;

/// A replica that follows the whole stream.
pub struct ConnectedReplica {
    pub id: u64,
    pub sender: Outlet,
    pub listening_port: u64,
    pub ack_offset: u64,
    pub last_ack_time: u64,
}

/// A replica that follows the stream of one shard.
pub struct ShardReplicaFlow {
    pub client_id: u64,
    pub shard_id: usize,
    pub sender: Outlet,
    pub lsn: u64,
    pub ack_lsn: u64,
}

/// The keys of a map, each once, in no particular order.
pub(crate) fn ids<V>(m: &HashMap<u64, V>) -> (r: Vec<u64>)
    ensures
        r@.no_duplicates(),
        r@.to_set() == m@.dom(),
{
    let mut r: Vec<u64> = Vec::new();
    let ghost all = IteratorSpec::remaining(&vstd::std_specs::hash::spec_keys_iter(m));
    for k in it: m.keys()
        invariant
            it.seq() == all,
            r@.len() == it.index(),
            forall|j: int| 0 <= j < r@.len() ==> r@[j] == *all[j],
    {
        r.push(*k);
    }
    assert(r@ =~= all.unref());
    r
}

/// The shards of a map, each once, in no particular order.
pub(crate) fn shard_ids<V>(m: &HashMap<usize, V>) -> (r: Vec<usize>)
    ensures
        r@.no_duplicates(),
        r@.to_set() == m@.dom(),
{
    let mut r: Vec<usize> = Vec::new();
    let ghost all = IteratorSpec::remaining(&vstd::std_specs::hash::spec_keys_iter(m));
    for k in it: m.keys()
        invariant
            it.seq() == all,
            r@.len() == it.index(),
            forall|j: int| 0 <= j < r@.len() ==> r@[j] == *all[j],
    {
        r.push(*k);
    }
    assert(r@ =~= all.unref());
    r
}

/// A copy of a slice.
fn copy(bytes: &[u8]) -> (r: Vec<u8>)
    ensures
        r@ == bytes@,
{
    let mut v: Vec<u8> = Vec::new();
    v.extend_from_slice(bytes);
    assert(v@ =~= bytes@);
    v
}

/// A replica before and after it was handed bytes once.
pub open spec fn replica_served(
    before: ConnectedReplica,
    after: ConnectedReplica,
    data: Seq<u8>,
    taken: bool,
) -> bool {
    &&& after == (ConnectedReplica { sender: after.sender, ..before })
    &&& after.sender.passed(before.sender, data, taken)
}

/// Replicas before and after each was handed bytes once, and those who took nothing and are gone.
pub open spec fn replicas_fed(
    before: Map<u64, ConnectedReplica>,
    after: Map<u64, ConnectedReplica>,
    lost: Map<u64, ConnectedReplica>,
    data: Seq<u8>,
) -> bool {
    &&& after.dom().disjoint(lost.dom())
    &&& after.dom().union(lost.dom()) == before.dom()
    &&& forall|id: u64| #[trigger]
        after.contains_key(id) ==> replica_served(before[id], after[id], data, true)
    &&& forall|id: u64| #[trigger]
        lost.contains_key(id) ==> replica_served(before[id], lost[id], data, false)
}

/// Hands bytes to every replica once, and gives those where nobody listens any more, which are
/// taken out.
pub(crate) fn feed_replicas(replicas: &mut HashMap<u64, ConnectedReplica>, bytes: &[u8]) -> (r:
    HashMap<u64, ConnectedReplica>)
    ensures
        replicas_fed(old(replicas)@, final(replicas)@, r@, bytes@),
{
    let all: Vec<u64> = ids(replicas);
    let mut r: HashMap<u64, ConnectedReplica> = HashMap::new();
    let mut i: usize = 0;
    while i < all.len()
        invariant
            i <= all.len(),
            all@.no_duplicates(),
            all@.to_set() == old(replicas)@.dom(),
            forall|id: u64| #[trigger]
                replicas@.contains_key(id) <==> old(replicas)@.contains_key(id) && !r@.contains_key(
                    id,
                ),
            forall|id: u64| #[trigger]
                replicas@.contains_key(id) ==> if all@.take(i as int).contains(id) {
                    replica_served(old(replicas)@[id], replicas@[id], bytes@, true)
                } else {
                    replicas@[id] == old(replicas)@[id]
                },
            forall|id: u64| #[trigger]
                r@.contains_key(id) ==> all@.take(i as int).contains(id) && replica_served(
                    old(replicas)@[id],
                    r@[id],
                    bytes@,
                    false,
                ),
        decreases all.len() - i,
    {
        let id: u64 = all[i];
        proof {
            assert(all@.to_set().contains(id));
            assert(!all@.take(i as int).contains(id));
            assert(replicas@.contains_key(id));
        }
        match replicas.remove(&id) {
            Some(rep) => {
                let mut rep = rep;
                let taken: bool = rep.sender.send(copy(bytes));
                if taken {
                    replicas.insert(id, rep);
                } else {
                    r.insert(id, rep);
                }
            },
            None => {},
        }
        proof {
            assert forall|c: u64| #[trigger]
                all@.take(i + 1).contains(c) <==> all@.take(i as int).contains(c) || c == id by {
                lemma_take_one_more(all@, i as int, c);
            }
        }
        i += 1;
    }
    proof {
        assert(all@.take(i as int) == all@);
        assert forall|id: u64| old(replicas)@.contains_key(id) implies all@.contains(id) by {
            assert(all@.to_set().contains(id));
        }
        assert forall|id: u64| #[trigger] r@.contains_key(id) implies old(replicas)@.contains_key(
            id,
        ) by {
            assert(all@.to_set().contains(id));
        }
        assert(replicas@.dom().union(r@.dom()) =~= old(replicas)@.dom());
        assert forall|id: u64| !(replicas@.dom().contains(id) && r@.dom().contains(id)) by {
            assert(replicas@.contains_key(id) <==> old(replicas)@.contains_key(id)
                && !r@.contains_key(id));
        }
    }
    r
}

/// The replicas that follow single shards.
pub struct ShardFlows {
    by_shard: HashMap<usize, HashMap<u64, ShardReplicaFlow>>,
}

/// A flow before and after it was handed bytes once.
pub open spec fn flow_served(
    before: ShardReplicaFlow,
    after: ShardReplicaFlow,
    data: Seq<u8>,
    taken: bool,
) -> bool {
    &&& after == (ShardReplicaFlow {
        lsn: before.lsn.wrapping_add(data.len() as u64),
        sender: after.sender,
        ..before
    })
    &&& after.sender.passed(before.sender, data, taken)
}

/// Whether the bytes of a shard, or of all shards, are meant for a flow.
pub open spec fn meant(shard: Option<usize>, flow: (usize, u64)) -> bool {
    match shard {
        Some(s) => flow.0 == s,
        None => true,
    }
}

/// Flows before and after those of a shard, or all, were handed bytes once each, and those who took
/// nothing and are gone.
pub open spec fn flows_fed(
    before: Map<(usize, u64), ShardReplicaFlow>,
    after: Map<(usize, u64), ShardReplicaFlow>,
    lost: Map<(usize, u64), ShardReplicaFlow>,
    shard: Option<usize>,
    data: Seq<u8>,
) -> bool {
    &&& after.dom().disjoint(lost.dom())
    &&& after.dom().union(lost.dom()) == before.dom()
    &&& forall|k: (usize, u64)| #[trigger]
        after.contains_key(k) ==> if meant(shard, k) {
            flow_served(before[k], after[k], data, true)
        } else {
            after[k] == before[k]
        }
    &&& forall|k: (usize, u64)| #[trigger]
        lost.contains_key(k) ==> meant(shard, k) && flow_served(before[k], lost[k], data, false)
}

/// The flows of one shard before and after each was handed bytes once, and those who took nothing.
spec fn clients_fed(
    before: Map<u64, ShardReplicaFlow>,
    after: Map<u64, ShardReplicaFlow>,
    lost: Map<u64, ShardReplicaFlow>,
    data: Seq<u8>,
) -> bool {
    &&& forall|c: u64| #[trigger]
        after.contains_key(c) <==> before.contains_key(c) && !lost.contains_key(c)
    &&& forall|c: u64| #[trigger] lost.contains_key(c) ==> before.contains_key(c)
    &&& forall|c: u64| #[trigger]
        after.contains_key(c) ==> flow_served(before[c], after[c], data, true)
    &&& forall|c: u64| #[trigger]
        lost.contains_key(c) ==> flow_served(before[c], lost[c], data, false)
}

impl View for ShardFlows {
    type V = Map<(usize, u64), ShardReplicaFlow>;

    /// The flows, by shard and client.
    closed spec fn view(&self) -> Map<(usize, u64), ShardReplicaFlow> {
        Map::new(
            |k: (usize, u64)|
                self.by_shard@.contains_key(k.0) && self.by_shard@[k.0]@.contains_key(k.1),
            |k: (usize, u64)| self.by_shard@[k.0]@[k.1],
        )
    }
}

/// Hands bytes to every flow of a shard once, and gives those where nobody listens any more, which
/// are taken out.
fn feed_flows(flows: &mut HashMap<u64, ShardReplicaFlow>, bytes: &[u8]) -> (r: HashMap<
    u64,
    ShardReplicaFlow,
>)
    ensures
        clients_fed(old(flows)@, final(flows)@, r@, bytes@),
{
    let all: Vec<u64> = ids(flows);
    let mut r: HashMap<u64, ShardReplicaFlow> = HashMap::new();
    let mut i: usize = 0;
    while i < all.len()
        invariant
            i <= all.len(),
            all@.no_duplicates(),
            all@.to_set() == old(flows)@.dom(),
            forall|c: u64| #[trigger]
                flows@.contains_key(c) <==> old(flows)@.contains_key(c) && !r@.contains_key(c),
            forall|c: u64| #[trigger]
                flows@.contains_key(c) ==> if all@.take(i as int).contains(c) {
                    flow_served(old(flows)@[c], flows@[c], bytes@, true)
                } else {
                    flows@[c] == old(flows)@[c]
                },
            forall|c: u64| #[trigger]
                r@.contains_key(c) ==> all@.take(i as int).contains(c) && flow_served(
                    old(flows)@[c],
                    r@[c],
                    bytes@,
                    false,
                ),
        decreases all.len() - i,
    {
        let id: u64 = all[i];
        proof {
            assert(all@.to_set().contains(id));
            assert(!all@.take(i as int).contains(id));
            assert(flows@.contains_key(id));
        }
        match flows.remove(&id) {
            Some(flow) => {
                let mut next = ShardReplicaFlow {
                    lsn: flow.lsn.wrapping_add(bytes.len() as u64),
                    ..flow
                };
                let taken: bool = next.sender.send(copy(bytes));
                if taken {
                    flows.insert(id, next);
                } else {
                    r.insert(id, next);
                }
            },
            None => {},
        }
        proof {
            assert forall|c: u64| #[trigger]
                all@.take(i + 1).contains(c) <==> all@.take(i as int).contains(c) || c == id by {
                lemma_take_one_more(all@, i as int, c);
            }
        }
        i += 1;
    }
    proof {
        assert(all@.take(i as int) == all@);
        assert forall|c: u64| old(flows)@.contains_key(c) implies all@.contains(c) by {
            assert(all@.to_set().contains(c));
        }
        assert forall|c: u64| #[trigger] r@.contains_key(c) implies old(flows)@.contains_key(c) by {
            assert(all@.to_set().contains(c));
        }
    }
    r
}

impl ShardFlows {
    /// The shards that the table has a place for.
    pub closed spec fn shards(&self) -> Set<usize> {
        self.by_shard@.dom()
    }

    /// No flows.
    pub(crate) fn new() -> (r: Self)
        ensures
            r@ == Map::<(usize, u64), ShardReplicaFlow>::empty(),
            r.shards() == Set::<usize>::empty(),
    {
        let r = ShardFlows { by_shard: HashMap::new() };
        assert(r@ =~= Map::<(usize, u64), ShardReplicaFlow>::empty());
        assert(r.shards() =~= Set::<usize>::empty());
        r
    }

    /// Puts a flow in, in place of the one of the same shard and client.
    pub(crate) fn insert(&mut self, flow: ShardReplicaFlow)
        ensures
            final(self)@ == old(self)@.insert((flow.shard_id, flow.client_id), flow),
            final(self).shards() == old(self).shards().insert(flow.shard_id),
    {
        let shard: usize = flow.shard_id;
        let client: u64 = flow.client_id;
        let mut inner = match self.by_shard.remove(&shard) {
            Some(inner) => inner,
            None => HashMap::new(),
        };
        inner.insert(client, flow);
        self.by_shard.insert(shard, inner);
        assert(self@ =~= old(self)@.insert((shard, client), flow));
        assert(self.shards() =~= old(self).shards().insert(shard));
    }

    /// Takes a flow out, and the place of its shard where none is left in it.
    pub(crate) fn remove(&mut self, shard: usize, client: u64)
        ensures
            final(self)@ == old(self)@.remove((shard, client)),
            final(self).shards() == if exists|c: u64| final(self)@.contains_key((shard, c)) {
                old(self).shards()
            } else {
                old(self).shards().remove(shard)
            },
    {
        match self.by_shard.remove(&shard) {
            Some(mut inner) => {
                inner.remove(&client);
                if !inner.is_empty() {
                    let ghost c = inner@.dom().choose();
                    proof {
                        assert(inner@.dom().contains(c)) by {
                            if !inner@.dom().contains(c) {
                                assert(inner@.dom() =~= Set::<u64>::empty());
                            }
                        }
                    }
                    self.by_shard.insert(shard, inner);
                    assert(self@.contains_key((shard, c)));
                    assert(self.shards() =~= old(self).shards());
                } else {
                    assert(forall|c: u64| !inner@.contains_key(c));
                    assert forall|c: u64| !self@.contains_key((shard, c)) by {}
                    assert(self.shards() =~= old(self).shards().remove(shard));
                }
            },
            None => {
                assert forall|c: u64| !self@.contains_key((shard, c)) by {}
                assert(self.shards() =~= old(self).shards().remove(shard));
            },
        }
        assert(self@ =~= old(self)@.remove((shard, client)));
    }

    /// Notes how far a flow has confirmed.
    pub(crate) fn acknowledge(&mut self, shard: usize, client: u64, ack_lsn: u64)
        ensures
            final(self)@ == if old(self)@.contains_key((shard, client)) {
                old(self)@.insert(
                    (shard, client),
                    ShardReplicaFlow { ack_lsn, ..old(self)@[(shard, client)] },
                )
            } else {
                old(self)@
            },
            final(self).shards() == old(self).shards(),
    {
        match self.by_shard.remove(&shard) {
            Some(mut inner) => {
                match inner.remove(&client) {
                    Some(flow) => {
                        inner.insert(client, ShardReplicaFlow { ack_lsn, ..flow });
                    },
                    None => {},
                }
                self.by_shard.insert(shard, inner);
            },
            None => {},
        }
        proof {
            let want = if old(self)@.contains_key((shard, client)) {
                old(self)@.insert(
                    (shard, client),
                    ShardReplicaFlow { ack_lsn, ..old(self)@[(shard, client)] },
                )
            } else {
                old(self)@
            };
            assert(self@ =~= want);
            assert(self.shards() =~= old(self).shards());
        }
    }

    /// A flow, by shard and client.
    pub fn get(&self, shard: usize, client: u64) -> (r: Option<&ShardReplicaFlow>)
        ensures
            match r {
                Some(flow) => self@.contains_key((shard, client)) && *flow == self@[(
                    shard,
                    client,
                )],
                None => !self@.contains_key((shard, client)),
            },
    {
        match self.by_shard.get(&shard) {
            Some(inner) => inner.get(&client),
            None => None,
        }
    }

    /// Whether no shard has a place.
    pub(crate) fn is_empty(&self) -> (r: bool)
        ensures
            r == (self.shards() == Set::<usize>::empty()),
    {
        let r: bool = self.by_shard.is_empty();
        assert(r == (self.shards() =~= Set::<usize>::empty())) by {
            if self.by_shard@.dom() =~= Set::<usize>::empty() {
                assert(self.by_shard@ =~= Map::<usize, HashMap<u64, ShardReplicaFlow>>::empty());
            }
        }
        r
    }

    /// Hands bytes to the flows of a shard once each. Those where nobody listens any more go over
    /// into another table, which has none of that shard.
    fn feed_place(&mut self, shard: usize, bytes: &[u8], lost: &mut ShardFlows)
        ensures
            final(self).shards() == old(self).shards(),
            final(lost).shards() == if old(self).shards().contains(shard) {
                old(lost).shards().insert(shard)
            } else {
                old(lost).shards()
            },
            forall|s: usize|
                s != shard && #[trigger] old(self).by_shard@.contains_key(s)
                    ==> final(self).by_shard@[s] == old(self).by_shard@[s],
            forall|s: usize|
                s != shard && #[trigger] old(lost).by_shard@.contains_key(s)
                    ==> final(lost).by_shard@[s] == old(lost).by_shard@[s],
            old(self).shards().contains(shard) ==> clients_fed(
                old(self).by_shard@[shard]@,
                final(self).by_shard@[shard]@,
                final(lost).by_shard@[shard]@,
                bytes@,
            ),
    {
        match self.by_shard.remove(&shard) {
            Some(mut inner) => {
                let gone = feed_flows(&mut inner, bytes);
                self.by_shard.insert(shard, inner);
                lost.by_shard.insert(shard, gone);
            },
            None => {},
        }
        assert(self.shards() =~= old(self).shards());
        assert(lost.shards() =~= if old(self).shards().contains(shard) {
            old(lost).shards().insert(shard)
        } else {
            old(lost).shards()
        });
    }

    /// Hands bytes to the flows of a shard once each, and gives those where nobody listens any
    /// more, which are taken out.
    pub(crate) fn feed_shard(&mut self, shard: usize, bytes: &[u8]) -> (r: ShardFlows)
        ensures
            flows_fed(old(self)@, final(self)@, r@, Some(shard), bytes@),
            final(self).shards() == old(self).shards(),
    {
        let mut r = ShardFlows::new();
        self.feed_place(shard, bytes, &mut r);
        proof {
            assert forall|k: (usize, u64)| #[trigger]
                self@.contains_key(k) <==> old(self)@.contains_key(k) && !r@.contains_key(k) by {
                assert(self.shards().contains(k.0) == old(self).shards().contains(k.0));
                assert(r.shards().contains(k.0) ==> k.0 == shard);
            }
            assert forall|k: (usize, u64)| #[trigger] r@.contains_key(k) implies k.0 == shard
                && old(self)@.contains_key(k) by {
                assert(r.shards().contains(k.0));
            }
            assert(self@.dom().union(r@.dom()) =~= old(self)@.dom());
        }
        r
    }

    /// Hands bytes to all flows once each, and gives those where nobody listens any more, which are
    /// taken out.
    pub(crate) fn feed_all(&mut self, bytes: &[u8]) -> (r: ShardFlows)
        ensures
            flows_fed(old(self)@, final(self)@, r@, None, bytes@),
            final(self).shards() == old(self).shards(),
    {
        let all: Vec<usize> = shard_ids(&self.by_shard);
        let mut r = ShardFlows::new();
        let mut i: usize = 0;
        assert(r.shards() =~= all@.take(0).to_set());
        while i < all.len()
            invariant
                i <= all.len(),
                all@.no_duplicates(),
                all@.to_set() == old(self).shards(),
                self.shards() == old(self).shards(),
                r.shards() == all@.take(i as int).to_set(),
                forall|s: usize|
                    !all@.take(i as int).contains(s) && #[trigger] old(self).by_shard@.contains_key(
                        s,
                    ) ==> self.by_shard@[s] == old(self).by_shard@[s],
                forall|s: usize| #[trigger]
                    all@.take(i as int).contains(s) ==> clients_fed(
                        old(self).by_shard@[s]@,
                        self.by_shard@[s]@,
                        r.by_shard@[s]@,
                        bytes@,
                    ),
            decreases all.len() - i,
        {
            let shard: usize = all[i];
            let ghost before = *self;
            let ghost had = r;
            proof {
                assert(all@.to_set().contains(shard));
                assert(!all@.take(i as int).contains(shard));
                assert(old(self).by_shard@.contains_key(shard));
            }
            self.feed_place(shard, bytes, &mut r);
            proof {
                assert forall|s: usize| #[trigger]
                    all@.take(i + 1).contains(s) <==> all@.take(i as int).contains(s) || s
                        == shard by {
                    lemma_take_one_more(all@, i as int, s);
                }
                assert(r.shards() =~= all@.take(i + 1).to_set());
                assert forall|s: usize| #[trigger]
                    all@.take(i + 1).contains(s) implies clients_fed(
                    old(self).by_shard@[s]@,
                    self.by_shard@[s]@,
                    r.by_shard@[s]@,
                    bytes@,
                ) by {
                    if s != shard {
                        assert(all@.take(i as int).contains(s));
                        assert(had.shards().contains(s));
                        assert(had.by_shard@.contains_key(s));
                        assert(all@.to_set().contains(s));
                        assert(before.by_shard@.contains_key(s));
                    }
                }
                assert forall|s: usize|
                    !all@.take(i + 1).contains(s) && #[trigger] old(self).by_shard@.contains_key(
                        s,
                    ) implies self.by_shard@[s] == old(self).by_shard@[s] by {
                    assert(before.shards().contains(s));
                    assert(before.by_shard@.contains_key(s));
                }
            }
            i += 1;
        }
        proof {
            assert(all@.take(i as int) == all@);
            assert forall|s: usize| #[trigger] self.by_shard@.contains_key(s) implies clients_fed(
                old(self).by_shard@[s]@,
                self.by_shard@[s]@,
                r.by_shard@[s]@,
                bytes@,
            ) && r.by_shard@.contains_key(s) && old(self).by_shard@.contains_key(s) by {
                assert(self.shards().contains(s));
                assert(all@.to_set().contains(s));
                assert(r.shards().contains(s));
            }
            assert forall|s: usize| #[trigger]
                r.by_shard@.contains_key(s) implies self.by_shard@.contains_key(s) by {
                assert(r.shards().contains(s));
                assert(all@.to_set().contains(s));
                assert(self.shards().contains(s));
            }
            assert forall|s: usize| #[trigger]
                old(self).by_shard@.contains_key(s) implies self.by_shard@.contains_key(s) by {
                assert(old(self).shards().contains(s));
                assert(self.shards().contains(s));
            }
            assert forall|k: (usize, u64)| #[trigger]
                self@.contains_key(k) <==> old(self)@.contains_key(k) && !r@.contains_key(k) by {}
            assert forall|k: (usize, u64)| #[trigger] r@.contains_key(k) implies old(
                self,
            )@.contains_key(k) by {}
            assert(self@.dom().union(r@.dom()) =~= old(self)@.dom());
        }
        r
    }
}

} // verus!
