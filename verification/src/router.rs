//! The routing of one shard: where keys and channels belong, what is to be done here and what is to
//! be sent to the other shards.
use bytes::Bytes;
use flume::Sender;
use vstd::prelude::*;

use crate::command::{Command, CommandView};
use crate::hashing::{hash_key, key_hash};
use crate::lists::{contents, pair_contents};
use crate::octets::content;
use crate::presence::ShardedPresenceTable;
use crate::pubsub::{Hub, PubSubHub};
use crate::redirects::{redirected, redirection, Phase, SlotState, SlotStates};
use crate::scatter::{count_involved, deal, involved, share};
use crate::slots::{
    even_shard, hash_tag, key_slot, law_shards_share_evenly, law_whole_key_without_tag, shard_of,
    slot_of, slot_to_shard, target_shard, SLOT_COUNT,
};
use crate::txlocks::TxLock;
use crate::wire::{count_line, write_resp_array_header};

verus! {

/// The routing of one shard.
pub struct Router {
    pub shard_id: usize,
    pub num_shards: usize,
    pub port: u16,
    pub base_port: u16,
    pub cluster_enabled: bool,
    pub slot_states: SlotStates,
    pub slot_owners: Vec<usize>,
    pub tx_lock: TxLock,
    pub is_saving: bool,
    pub last_save_time: u64,
    pub is_auto_tiering: bool,
}

/// Where something is done.
#[derive(Clone, Copy, Debug, PartialEq, Eq, Structural)]
pub enum Route {
    Here,
    At(usize),
}

/// Keys that are dealt out to the shards, with how many other shards are to answer.
pub struct Scatter {
    pub batches: Vec<Vec<(usize, Bytes)>>,
    pub awaited: usize,
    pub total: usize,
}

/// How several values are read: not at all, from the only shard, from this shard alone, or from
/// several.
pub enum MgetPlan {
    Nothing,
    Single(Vec<Bytes>),
    Local(Vec<Bytes>),
    Scattered(Scatter),
}

/// How several values are set: not at all, at the only shard, at this shard alone, or at several.
pub enum MsetPlan {
    Nothing,
    Single(Vec<(Bytes, Bytes)>),
    Local(Vec<(Bytes, Bytes)>),
    Scattered { batches: Vec<Vec<(usize, (Bytes, Bytes))>>, awaited: usize },
}

/// How several keys are deleted: not at all, as a single key, at the only shard, or at several.
pub enum DelPlan {
    Nothing,
    One(Bytes),
    Single(Vec<Bytes>),
    Scattered(Scatter),
}

/// What is done with a command of a master's stream: it is carried out here, or at another shard;
/// all shards are emptied; or its pairs are set, or its keys deleted, one by one.
pub enum ReplicaPlan {
    Here(Command),
    At(usize, Command),
    Empty,
    SetEach(Vec<(Bytes, Bytes)>),
    DeleteEach(Vec<Bytes>),
}

/// Keys whose places in a reply are those of the keys that were asked for, dealt out by where they
/// belong.
pub open spec fn dealt(
    s: Scatter,
    keys: Seq<Bytes>,
    targets: Seq<usize>,
    own: usize,
    n: usize,
) -> bool {
    &&& s.total == keys.len()
    &&& s.batches@.len() == n
    &&& forall|k: int|
        0 <= k < n ==> (#[trigger] s.batches@[k])@ == share(
            keys,
            targets,
            k as usize,
            keys.len(),
        )
    &&& s.awaited == involved(s.batches@, own, n as nat)
}

/// Whether a shard other than `own` is meant.
pub open spec fn reaches_out(targets: Seq<usize>, own: usize) -> bool {
    exists|i: int| 0 <= i < targets.len() && #[trigger] targets[i] != own
}

impl Router {
    /// The shard is one of the shards, and every slot has an owner.
    pub open spec fn wf(&self) -> bool {
        &&& self.shard_id < self.num_shards
        &&& 16383 * self.num_shards <= usize::MAX
        &&& self.slot_owners@.len() == SLOT_COUNT
        &&& self.tx_lock.wf()
    }

    /// The owners of the slots are among the shards.
    pub open spec fn covered(&self) -> bool {
        forall|s: int| 0 <= s < SLOT_COUNT ==> #[trigger] self.slot_owners@[s] < self.num_shards
    }

    /// The state of a slot: at rest, unless something else is noted.
    pub open spec fn phase(&self, slot: u16) -> Phase {
        if self.slot_states@.dom().contains(slot) {
            self.slot_states@[slot]
        } else {
            Phase::Stable
        }
    }

    /// The shard that a key belongs to: the owner of its slot in a cluster, and by the hash of its
    /// tag otherwise.
    pub open spec fn home(&self, key: Seq<u8>, clustered: bool) -> usize {
        if self.cluster_enabled || clustered {
            self.slot_owners@[slot_of(key) as int]
        } else {
            shard_of(key, self.num_shards as nat, false) as usize
        }
    }

    /// The shards that keys belong to.
    pub open spec fn homes(&self, keys: Seq<Bytes>, clustered: bool) -> Seq<usize> {
        keys.map_values(|k: Bytes| self.home(content(k), clustered))
    }

    /// The shards that the keys of pairs belong to.
    pub open spec fn pair_homes(&self, pairs: Seq<(Bytes, Bytes)>, clustered: bool) -> Seq<usize> {
        pairs.map_values(|p: (Bytes, Bytes)| self.home(content(p.0), clustered))
    }

    /// A plan by which the values of keys are read.
    pub open spec fn mget_planned(&self, keys: Seq<Bytes>, clustered: bool, plan: MgetPlan) -> bool {
        match plan {
            MgetPlan::Nothing => keys.len() == 0,
            MgetPlan::Single(k) => keys.len() > 0 && self.num_shards == 1 && k@ == keys,
            MgetPlan::Local(k) => keys.len() > 0 && self.num_shards > 1 && k@ == keys
                && !reaches_out(self.homes(keys, clustered), self.shard_id),
            MgetPlan::Scattered(s) => keys.len() > 0 && self.num_shards > 1 && reaches_out(
                self.homes(keys, clustered),
                self.shard_id,
            ) && dealt(
                s,
                keys,
                self.homes(keys, clustered),
                self.shard_id,
                self.num_shards,
            ),
        }
    }

    /// A plan by which pairs are set.
    pub open spec fn mset_planned(
        &self,
        pairs: Seq<(Bytes, Bytes)>,
        clustered: bool,
        plan: MsetPlan,
    ) -> bool {
        match plan {
            MsetPlan::Nothing => pairs.len() == 0,
            MsetPlan::Single(p) => pairs.len() > 0 && self.num_shards == 1 && p@ == pairs,
            MsetPlan::Local(p) => pairs.len() > 0 && self.num_shards > 1 && p@ == pairs
                && !reaches_out(self.pair_homes(pairs, clustered), self.shard_id),
            MsetPlan::Scattered { batches, awaited } => {
                &&& pairs.len() > 0
                &&& self.num_shards > 1
                &&& reaches_out(self.pair_homes(pairs, clustered), self.shard_id)
                &&& batches@.len() == self.num_shards
                &&& forall|k: int|
                    0 <= k < self.num_shards ==> (#[trigger] batches@[k])@ == share(
                        pairs,
                        self.pair_homes(pairs, clustered),
                        k as usize,
                        pairs.len(),
                    )
                &&& awaited == involved(batches@, self.shard_id, self.num_shards as nat)
            },
        }
    }

    /// A plan by which keys are deleted.
    pub open spec fn del_planned(&self, keys: Seq<Bytes>, clustered: bool, plan: DelPlan) -> bool {
        match plan {
            DelPlan::Nothing => keys.len() == 0,
            DelPlan::One(k) => keys.len() == 1 && k == keys[0],
            DelPlan::Single(k) => keys.len() > 1 && self.num_shards == 1 && k@ == keys,
            DelPlan::Scattered(s) => keys.len() > 1 && self.num_shards > 1 && dealt(
                s,
                keys,
                self.homes(keys, clustered),
                self.shard_id,
                self.num_shards,
            ),
        }
    }

    /// The other shards, in order.
    pub open spec fn others(&self) -> Seq<usize> {
        Seq::new(
            (self.num_shards - 1) as nat,
            |i: int|
                if i < self.shard_id {
                    i as usize
                } else {
                    (i + 1) as usize
                },
        )
    }

    /// The routing of a shard, with the slots spread evenly.
    pub fn new(shard_id: usize, num_shards: usize, port: u16) -> (r: Self)
        requires
            shard_id < num_shards,
            16383 * num_shards <= usize::MAX,
        ensures
            r.wf(),
            r.covered(),
            r.shard_id == shard_id,
            r.num_shards == num_shards,
            r.port == port,
            r.base_port == port,
            !r.cluster_enabled,
            r.slot_states@.dom() == Set::<u16>::empty(),
            forall|s: u16|
                s < SLOT_COUNT ==> #[trigger] r.slot_owners@[s as int] == even_shard(
                    s,
                    num_shards as nat,
                ),
            r.tx_lock.holder is None,
            r.tx_lock.waiters@.len() == 0,
            !r.is_saving,
            r.last_save_time == 0,
            !r.is_auto_tiering,
    {
        let mut owners: Vec<usize> = Vec::new();
        let mut s: u16 = 0;
        while s < SLOT_COUNT
            invariant
                s <= SLOT_COUNT,
                num_shards > 0,
                16383 * num_shards <= usize::MAX,
                owners@.len() == s,
                forall|k: int|
                    0 <= k < s ==> #[trigger] owners@[k] == even_shard(
                        k as u16,
                        num_shards as nat,
                    ) && owners@[k] < num_shards,
            decreases SLOT_COUNT - s,
        {
            proof {
                let n = num_shards as int;
                assert(s * n <= 16383 * n && s * n < 16384 * n) by (nonlinear_arith)
                    requires
                        s <= 16383,
                        n > 0,
                ;
            }
            owners.push(slot_to_shard(s, num_shards));
            s += 1;
        }
        assert forall|s: u16| s < SLOT_COUNT implies #[trigger] owners@[s as int] == even_shard(
            s,
            num_shards as nat,
        ) by {}
        Router {
            shard_id,
            num_shards,
            port,
            base_port: port,
            cluster_enabled: false,
            slot_states: SlotStates::new(),
            slot_owners: owners,
            tx_lock: TxLock::new(),
            is_saving: false,
            last_save_time: 0,
            is_auto_tiering: false,
        }
    }

    /// The state of a slot.
    pub fn get_slot_state(&self, slot: u16) -> (r: SlotState)
        ensures
            r@ == self.phase(slot),
    {
        match self.slot_states.get(slot) {
            Some(state) => state.copied(),
            None => SlotState::Stable,
        }
    }

    /// The shard that owns a slot.
    pub fn target_shard_for_slot(&self, slot: u16) -> (r: usize)
        requires
            self.wf(),
            slot < SLOT_COUNT,
        ensures
            r == self.slot_owners@[slot as int],
            self.covered() ==> r < self.num_shards,
    {
        self.slot_owners[slot as usize]
    }

    /// The shard that a key belongs to.
    pub fn target_shard(&self, key: &[u8], clustered: bool) -> (r: usize)
        requires
            self.wf(),
        ensures
            r == self.home(key@, clustered),
            self.covered() ==> r < self.num_shards,
    {
        if self.cluster_enabled || clustered {
            self.target_shard_for_slot(key_slot(key))
        } else {
            target_shard(key, self.num_shards, false)
        }
    }

    /// The shard that a key belongs to, and the hash of the key.
    pub fn target_shard_and_hash(&self, key: &[u8], clustered: bool) -> (r: (usize, u64))
        requires
            self.wf(),
        ensures
            r.0 == self.home(key@, clustered),
            r.1 == key_hash(key@),
            self.covered() ==> r.0 < self.num_shards,
    {
        let hash: u64 = hash_key(key);
        (self.target_shard(key, clustered), hash)
    }

    /// Where something with a key is done.
    pub fn route(&self, key: &[u8], clustered: bool) -> (r: Route)
        requires
            self.wf(),
        ensures
            r == if self.home(key@, clustered) == self.shard_id {
                Route::Here
            } else {
                Route::At(self.home(key@, clustered))
            },
    {
        let target: usize = self.target_shard(key, clustered);
        if target == self.shard_id {
            Route::Here
        } else {
            Route::At(target)
        }
    }

    /// Where a single key is deleted: at the shard that it belongs to.
    pub fn route_del(&self, key: &[u8], clustered: bool) -> (r: Route)
        requires
            self.wf(),
        ensures
            r == if self.home(key@, clustered) == self.shard_id {
                Route::Here
            } else {
                Route::At(self.home(key@, clustered))
            },
    {
        self.route(key, clustered)
    }

    /// Whether a client is served a key of a slot here, or else where it is sent.
    pub fn check_slot_redirection(&self, slot: u16, key_exists: bool, asking: bool) -> (r: Result<
        (),
        String,
    >)
        ensures
            match r {
                Ok(_) => redirection(self.phase(slot), slot, key_exists, asking) is None,
                Err(e) => redirection(self.phase(slot), slot, key_exists, asking) == Some(e@),
            },
    {
        redirected(&self.get_slot_state(slot), slot, key_exists, asking)
    }

    /// The other shards, which are to be told of a change.
    pub fn peers(&self) -> (r: Vec<usize>)
        requires
            self.wf(),
        ensures
            r@ == self.others(),
    {
        let mut r: Vec<usize> = Vec::new();
        let mut s: usize = 0;
        while s < self.num_shards
            invariant
                self.wf(),
                s <= self.num_shards,
                r@.len() == if s <= self.shard_id {
                    s as int
                } else {
                    s - 1
                },
                forall|i: int|
                    0 <= i < r@.len() ==> #[trigger] r@[i] == if i < self.shard_id {
                        i
                    } else {
                        i + 1
                    },
            decreases self.num_shards - s,
        {
            if s != self.shard_id {
                r.push(s);
            }
            s += 1;
        }
        assert(r@ =~= self.others());
        r
    }

    /// Notes the state of a slot, and gives the other shards, which are to be told.
    pub fn set_slot_state(&mut self, slot: u16, state: SlotState) -> (r: Vec<usize>)
        requires
            old(self).wf(),
        ensures
            final(self).wf(),
            *final(self) == (Router { slot_states: final(self).slot_states, ..*old(self) }),
            final(self).slot_states@ == match state@ {
                Phase::Stable => old(self).slot_states@.remove(slot),
                phase => old(self).slot_states@.insert(slot, phase),
            },
            noted(*old(self), *final(self), slot, state@),
            r@ == old(self).others(),
    {
        let stable: bool = match &state {
            SlotState::Stable => true,
            _ => false,
        };
        if stable {
            self.slot_states.remove(slot);
        } else {
            self.slot_states.insert(slot, state);
        }
        self.peers()
    }

    /// Gives a slot, at rest, to an owner, and gives the other shards, which are to be told.
    pub fn set_slot_owner(&mut self, slot: u16, owner: usize) -> (r: Vec<usize>)
        requires
            old(self).wf(),
            slot < SLOT_COUNT,
        ensures
            final(self).wf(),
            old(self).covered() && owner < old(self).num_shards ==> final(self).covered(),
            given(*old(self), *final(self), slot, owner),
            r@ == old(self).others(),
    {
        self.slot_states.remove(slot);
        self.slot_owners.set(slot as usize, owner);
        self.peers()
    }

    /// Puts slots to rest that the cluster has taken on.
    pub fn settle_slots(&mut self, slots: &[u16])
        requires
            old(self).wf(),
        ensures
            final(self).wf(),
            *final(self) == (Router { slot_states: final(self).slot_states, ..*old(self) }),
            final(self).slot_states@ == old(self).slot_states@.remove_keys(slots@.to_set()),
    {
        let mut i: usize = 0;
        assert(self.slot_states@ =~= old(self).slot_states@.remove_keys(slots@.take(0).to_set()));
        while i < slots.len()
            invariant
                i <= slots.len(),
                *self == (Router { slot_states: self.slot_states, ..*old(self) }),
                self.slot_states@ == old(self).slot_states@.remove_keys(
                    slots@.take(i as int).to_set(),
                ),
            decreases slots.len() - i,
        {
            self.slot_states.remove(slots[i]);
            proof {
                let before = slots@.take(i as int);
                let after = slots@.take(i + 1);
                assert forall|x: u16| after.contains(x) <==> before.contains(x) || x
                    == slots@[i as int] by {
                    crate::pubsub::lemma_take_one_more(slots@, i as int, x);
                }
                assert(after.to_set() =~= before.to_set().insert(slots@[i as int]));
                assert(self.slot_states@ =~= old(self).slot_states@.remove_keys(after.to_set()));
            }
            i += 1;
        }
        assert(slots@.take(i as int) == slots@);
    }

    /// Puts ranges of slots to rest that the cluster has taken on, the ends of each with it.
    pub fn settle_slot_ranges(&mut self, ranges: &[(u16, u16)])
        requires
            old(self).wf(),
        ensures
            final(self).wf(),
            *final(self) == (Router { slot_states: final(self).slot_states, ..*old(self) }),
            final(self).slot_states@ == old(self).slot_states@.remove_keys(
                Set::new(|s: u16| in_ranges(ranges@, s)),
            ),
    {
        let mut i: usize = 0;
        assert(self.slot_states@ =~= old(self).slot_states@.remove_keys(
            Set::new(|s: u16| in_ranges(ranges@.take(0), s)),
        ));
        while i < ranges.len()
            invariant
                i <= ranges.len(),
                *self == (Router { slot_states: self.slot_states, ..*old(self) }),
                self.slot_states@ == old(self).slot_states@.remove_keys(
                    Set::new(|s: u16| in_ranges(ranges@.take(i as int), s)),
                ),
            decreases ranges.len() - i,
        {
            let (start, end): (u16, u16) = ranges[i];
            let ghost before = self.slot_states@;
            let mut s: u32 = start as u32;
            assert(self.slot_states@ =~= before.remove_keys(
                Set::new(|x: u16| start <= x < s && x <= end),
            ));
            while s <= end as u32
                invariant
                    start <= s <= end + 1 || s == start,
                    *self == (Router { slot_states: self.slot_states, ..*old(self) }),
                    self.slot_states@ == before.remove_keys(
                        Set::new(|x: u16| start <= x < s && x <= end),
                    ),
                decreases end + 1 - s,
            {
                self.slot_states.remove(s as u16);
                assert(self.slot_states@ =~= before.remove_keys(
                    Set::new(|x: u16| start <= x < s + 1 && x <= end),
                ));
                s += 1;
            }
            proof {
                assert forall|x: u16| in_ranges(ranges@.take(i + 1), x) <==> in_ranges(
                    ranges@.take(i as int),
                    x,
                ) || start <= x <= end by {
                    lemma_ranges_step(ranges@, i as int, x);
                }
                assert(self.slot_states@ =~= old(self).slot_states@.remove_keys(
                    Set::new(|x: u16| in_ranges(ranges@.take(i + 1), x)),
                ));
            }
            i += 1;
        }
        assert(ranges@.take(i as int) == ranges@);
    }

    /// The shards that keys belong to.
    pub fn targets(&self, keys: &Vec<Bytes>, clustered: bool) -> (r: Vec<usize>)
        requires
            self.wf(),
            self.covered(),
        ensures
            r@ == self.homes(keys@, clustered),
            forall|i: int| 0 <= i < r@.len() ==> #[trigger] r@[i] < self.num_shards,
    {
        let mut r: Vec<usize> = Vec::new();
        let mut i: usize = 0;
        while i < keys.len()
            invariant
                self.wf(),
                self.covered(),
                i <= keys.len(),
                r@.len() == i,
                forall|k: int|
                    0 <= k < i ==> #[trigger] r@[k] == self.home(content(keys@[k]), clustered)
                        && r@[k] < self.num_shards,
            decreases keys.len() - i,
        {
            r.push(self.target_shard(keys[i].as_ref(), clustered));
            i += 1;
        }
        assert(r@ =~= self.homes(keys@, clustered));
        r
    }

    /// Whether a shard other than this one is meant.
    fn is_wide(&self, targets: &Vec<usize>) -> (r: bool)
        ensures
            r == reaches_out(targets@, self.shard_id),
    {
        let mut i: usize = 0;
        while i < targets.len()
            invariant
                i <= targets.len(),
                forall|k: int| 0 <= k < i ==> #[trigger] targets@[k] == self.shard_id,
            decreases targets.len() - i,
        {
            if targets[i] != self.shard_id {
                return true;
            }
            i += 1;
        }
        false
    }

    /// Deals keys out to the shards that they belong to.
    fn scatter(&self, keys: Vec<Bytes>, targets: &Vec<usize>) -> (r: Scatter)
        requires
            self.wf(),
            targets@.len() == keys@.len(),
            forall|i: int| 0 <= i < targets@.len() ==> #[trigger] targets@[i] < self.num_shards,
        ensures
            dealt(r, keys@, targets@, self.shard_id, self.num_shards),
    {
        let total: usize = keys.len();
        let batches: Vec<Vec<(usize, Bytes)>> = deal(keys, targets, self.num_shards);
        let awaited: usize = count_involved(&batches, self.shard_id);
        Scatter { batches, awaited, total }
    }

    /// How several values are read.
    pub fn plan_mget(&self, keys: Vec<Bytes>, clustered: bool) -> (r: MgetPlan)
        requires
            self.wf(),
            self.covered(),
        ensures
            self.mget_planned(keys@, clustered, r),
    {
        if keys.len() == 0 {
            return MgetPlan::Nothing;
        }
        if self.num_shards <= 1 {
            return MgetPlan::Single(keys);
        }
        let targets: Vec<usize> = self.targets(&keys, clustered);
        if !self.is_wide(&targets) {
            return MgetPlan::Local(keys);
        }
        MgetPlan::Scattered(self.scatter(keys, &targets))
    }

    /// Begins a reply with several values: an empty one is written at once, the others wait for the
    /// values that the plan asks for.
    pub fn begin_mget_resp(&self, keys: Vec<Bytes>, clustered: bool, out: &mut Vec<u8>) -> (r:
        MgetPlan)
        requires
            self.wf(),
            self.covered(),
        ensures
            final(out)@ == if keys@.len() == 0 {
                old(out)@ + count_line(42, 0)
            } else {
                old(out)@
            },
            self.mget_planned(keys@, clustered, r),
    {
        if keys.len() == 0 {
            write_resp_array_header(out, 0);
        }
        self.plan_mget(keys, clustered)
    }

    /// How several values are set.
    pub fn begin_mset(&self, pairs: Vec<(Bytes, Bytes)>, clustered: bool) -> (r: MsetPlan)
        requires
            self.wf(),
            self.covered(),
        ensures
            self.mset_planned(pairs@, clustered, r),
    {
        if pairs.len() == 0 {
            return MsetPlan::Nothing;
        }
        if self.num_shards <= 1 {
            return MsetPlan::Single(pairs);
        }
        let mut targets: Vec<usize> = Vec::new();
        let mut i: usize = 0;
        while i < pairs.len()
            invariant
                self.wf(),
                self.covered(),
                i <= pairs.len(),
                targets@.len() == i,
                forall|k: int|
                    0 <= k < i ==> #[trigger] targets@[k] == self.home(
                        content(pairs@[k].0),
                        clustered,
                    ) && targets@[k] < self.num_shards,
            decreases pairs.len() - i,
        {
            targets.push(self.target_shard(pairs[i].0.as_ref(), clustered));
            i += 1;
        }
        assert(targets@ =~= self.pair_homes(pairs@, clustered));
        if !self.is_wide(&targets) {
            return MsetPlan::Local(pairs);
        }
        let batches: Vec<Vec<(usize, (Bytes, Bytes))>> = deal(pairs, &targets, self.num_shards);
        let awaited: usize = count_involved(&batches, self.shard_id);
        MsetPlan::Scattered { batches, awaited }
    }

    /// How several keys are deleted.
    pub fn plan_del(&self, keys: Vec<Bytes>, clustered: bool) -> (r: DelPlan)
        requires
            self.wf(),
            self.covered(),
        ensures
            self.del_planned(keys@, clustered, r),
    {
        let mut keys = keys;
        if keys.len() == 0 {
            return DelPlan::Nothing;
        }
        if keys.len() == 1 {
            return DelPlan::One(keys.remove(0));
        }
        if self.num_shards <= 1 {
            return DelPlan::Single(keys);
        }
        let targets: Vec<usize> = self.targets(&keys, clustered);
        DelPlan::Scattered(self.scatter(keys, &targets))
    }

    /// What is done with a command of a master's stream, for which a shard may be known.
    pub fn plan_replica_command(&self, target: Option<usize>, command: Command) -> (r: ReplicaPlan)
        ensures
            match target {
                Some(t) => if t == self.shard_id {
                    r matches ReplicaPlan::Here(c) && c == command
                } else {
                    r matches ReplicaPlan::At(s, c) && s == t && c == command
                },
                None => match command@ {
                    CommandView::Flushall | CommandView::Flushdb => r is Empty,
                    CommandView::Mset(pairs) => r matches ReplicaPlan::SetEach(p) && pair_contents(
                        p@,
                    ) == pairs,
                    CommandView::Del(keys) => r matches ReplicaPlan::DeleteEach(k) && contents(k@)
                        == keys,
                    _ => r matches ReplicaPlan::Here(c) && c == command,
                },
            },
    {
        match target {
            Some(t) => {
                if t == self.shard_id {
                    ReplicaPlan::Here(command)
                } else {
                    ReplicaPlan::At(t, command)
                }
            },
            None => match command {
                Command::Flushall => ReplicaPlan::Empty,
                Command::Flushdb => ReplicaPlan::Empty,
                Command::Mset(pairs) => ReplicaPlan::SetEach(pairs),
                Command::Del(keys) => {
                    let listed: &[Bytes] = keys.as_slice();
                    let mut each: Vec<Bytes> = Vec::new();
                    let mut i: usize = 0;
                    while i < listed.len()
                        invariant
                            i <= listed.len(),
                            each@.len() == i,
                            forall|k: int|
                                0 <= k < i ==> content(#[trigger] each@[k]) == content(listed@[k]),
                        decreases listed.len() - i,
                    {
                        each.push(listed[i].clone());
                        i += 1;
                    }
                    assert(contents(each@) =~= contents(listed@));
                    ReplicaPlan::DeleteEach(each)
                },
                other => ReplicaPlan::Here(other),
            },
        }
    }

    /// The other shards that a message for a channel concerns, in order.
    pub fn interested_peers(&self, presence: &ShardedPresenceTable, channel: &[u8]) -> (r: Vec<
        usize,
    >)
        requires
            self.wf(),
        ensures
            r@ == self.others().filter(|s: usize| presence@.interested(s as nat, channel@)),
    {
        let all: Vec<usize> = self.peers();
        let mut r: Vec<usize> = Vec::new();
        let mut i: usize = 0;
        let ghost keep = |s: usize| presence@.interested(s as nat, channel@);
        assert(r@ =~= all@.take(0).filter(keep)) by {
            reveal(Seq::filter);
        }
        while i < all.len()
            invariant
                i <= all.len(),
                r@ == all@.take(i as int).filter(keep),
                keep == (|s: usize| presence@.interested(s as nat, channel@)),
            decreases all.len() - i,
        {
            proof {
                reveal(Seq::filter);
                assert(all@.take(i + 1).drop_last() == all@.take(i as int));
            }
            if presence.is_shard_interested(all[i], channel) {
                r.push(all[i]);
            }
            i += 1;
        }
        assert(all@.take(i as int) == all@);
        r
    }

    /// The shard that a shard channel belongs to.
    pub open spec fn channel_home(&self, channel: Seq<u8>) -> usize {
        even_shard(slot_of(channel), self.num_shards as nat) as usize
    }

    /// The shards that shard channels belong to.
    pub open spec fn channel_homes(&self, channels: Seq<Seq<u8>>) -> Seq<usize> {
        channels.map_values(|c: Seq<u8>| self.channel_home(c))
    }

    /// The hub keeps only links to shard channels that belong to this shard.
    pub open spec fn keeps_own(&self, hub: Hub) -> bool {
        forall|c: u64, n: Seq<u8>| #[trigger]
            hub.shard_channels.contains((c, n)) ==> self.channel_home(n) == self.shard_id
    }

    /// Where something with a shard channel is done.
    pub fn route_shard_channel(&self, channel: &[u8]) -> (r: Route)
        requires
            self.wf(),
        ensures
            r == if self.channel_home(channel@) == self.shard_id {
                Route::Here
            } else {
                Route::At(self.channel_home(channel@))
            },
    {
        let slot: u16 = key_slot(channel);
        assert(slot * self.num_shards <= 16383 * self.num_shards) by (nonlinear_arith)
            requires
                slot <= 16383,
        ;
        let target: usize = slot_to_shard(slot, self.num_shards);
        if target == self.shard_id {
            Route::Here
        } else {
            Route::At(target)
        }
    }

    /// The shard channels that each shard is asked about, dealt out by where they belong.
    pub fn plan_shard_numsub(&self, channels: &Vec<Bytes>) -> (r: Vec<Vec<(usize, Bytes)>>)
        requires
            self.wf(),
        ensures
            r@.len() == self.num_shards,
            forall|k: int|
                0 <= k < self.num_shards ==> placed_contents((#[trigger] r@[k])@) == share(
                    contents(channels@),
                    self.channel_homes(contents(channels@)),
                    k as usize,
                    channels@.len(),
                ),
    {
        let mut targets: Vec<usize> = Vec::new();
        let mut names: Vec<Bytes> = Vec::new();
        let mut i: usize = 0;
        while i < channels.len()
            invariant
                self.wf(),
                i <= channels.len(),
                targets@.len() == i,
                names@.len() == i,
                forall|k: int|
                    0 <= k < i ==> #[trigger] targets@[k] == self.channel_home(
                        content(channels@[k]),
                    ) && targets@[k] < self.num_shards,
                forall|k: int|
                    0 <= k < i ==> content(#[trigger] names@[k]) == content(channels@[k]),
            decreases channels.len() - i,
        {
            let slot: u16 = key_slot(channels[i].as_ref());
            proof {
                let n = self.num_shards as int;
                assert(slot * n <= 16383 * n && slot * n < 16384 * n) by (nonlinear_arith)
                    requires
                        slot <= 16383,
                        n > 0,
                ;
            }
            targets.push(slot_to_shard(slot, self.num_shards));
            names.push(channels[i].clone());
            i += 1;
        }
        let ghost all = names@;
        assert(contents(all) =~= contents(channels@));
        assert(targets@ =~= self.channel_homes(contents(channels@)));
        let r: Vec<Vec<(usize, Bytes)>> = deal(names, &targets, self.num_shards);
        proof {
            assert forall|k: int| 0 <= k < self.num_shards implies placed_contents(
                (#[trigger] r@[k])@,
            ) == share(
                contents(channels@),
                self.channel_homes(contents(channels@)),
                k as usize,
                channels@.len(),
            ) by {
                lemma_placed_share(all, targets@, k as usize, all.len());
            }
        }
        r
    }

    /// Subscribes a client to a shard channel and gives the number of its subscriptions: as a link
    /// where the channel belongs to this shard, else as one that another shard keeps.
    pub fn ssubscribe(
        &self,
        hub: &mut PubSubHub,
        client_id: u64,
        channel: Bytes,
        tx: Sender<Bytes>,
        is_resp3: bool,
    ) -> (r: usize)
        requires
            self.wf(),
            old(hub).wf(),
            old(hub)@.size() < usize::MAX,
            self.keeps_own(old(hub)@),
        ensures
            final(hub).wf(),
            self.keeps_own(final(hub)@),
            final(hub)@ == if self.channel_home(content(channel)) == self.shard_id {
                Hub {
                    shard_channels: old(hub)@.shard_channels.insert((client_id, content(channel))),
                    shard_held: old(hub)@.shard_held.insert((client_id, content(channel))),
                    ..old(hub)@.greeted(client_id, tx, is_resp3)
                }
            } else {
                Hub {
                    shard_held: old(hub)@.shard_held.insert((client_id, content(channel))),
                    ..old(hub)@
                }
            },
            r == final(hub)@.total(client_id),
    {
        match self.route_shard_channel(channel.as_ref()) {
            Route::Here => hub.ssubscribe(client_id, channel, tx, is_resp3),
            Route::At(_) => hub.note_remote(client_id, channel),
        }
    }

    /// Ends a client's subscription to a shard channel, wherever it is kept, and gives the number of
    /// those that it has left.
    pub fn sunsubscribe(&self, hub: &mut PubSubHub, client_id: u64, channel: &[u8]) -> (r: usize)
        requires
            self.wf(),
            old(hub).wf(),
            self.keeps_own(old(hub)@),
        ensures
            final(hub).wf(),
            self.keeps_own(final(hub)@),
            final(hub)@ == if self.channel_home(channel@) == self.shard_id {
                (Hub {
                    shard_channels: old(hub)@.shard_channels.remove((client_id, channel@)),
                    shard_held: old(hub)@.shard_held.remove((client_id, channel@)),
                    ..old(hub)@
                }).settled(client_id)
            } else {
                Hub {
                    shard_held: old(hub)@.shard_held.remove((client_id, channel@)),
                    ..old(hub)@
                }
            },
            r == final(hub)@.total(client_id),
    {
        match self.route_shard_channel(channel) {
            Route::Here => hub.sunsubscribe(client_id, channel),
            Route::At(_) => hub.forget_remote(client_id, channel),
        }
    }

    /// The time of the last save; the present counts as one where there was none.
    pub fn lastsave(&mut self, now_secs: u64) -> (r: u64)
        ensures
            r == if old(self).last_save_time == 0 {
                now_secs
            } else {
                old(self).last_save_time
            },
            *final(self) == (Router { last_save_time: r, ..*old(self) }),
    {
        if self.last_save_time == 0 {
            self.last_save_time = now_secs;
        }
        self.last_save_time
    }

    /// Begins to save, unless a save goes on.
    pub fn begin_save(&mut self) -> (r: Result<(), String>)
        ensures
            *final(self) == (Router { is_saving: true, ..*old(self) }),
            match r {
                Ok(_) => !old(self).is_saving,
                Err(e) => old(self).is_saving && e@ == "Background save already in progress"@,
            },
    {
        if self.is_saving {
            return Err("Background save already in progress".to_owned());
        }
        self.is_saving = true;
        Ok(())
    }

    /// Begins to rewrite the log, unless a save or a rewrite goes on.
    pub fn begin_rewrite(&mut self) -> (r: Result<(), String>)
        ensures
            *final(self) == (Router { is_saving: true, ..*old(self) }),
            match r {
                Ok(_) => !old(self).is_saving,
                Err(e) => old(self).is_saving && e@
                    == "Background save or rewrite already in progress"@,
            },
    {
        if self.is_saving {
            return Err("Background save or rewrite already in progress".to_owned());
        }
        self.is_saving = true;
        Ok(())
    }

    /// Ends a save that is done.
    pub fn end_save(&mut self, now_secs: u64)
        ensures
            *final(self) == (Router {
                is_saving: false,
                last_save_time: now_secs,
                ..*old(self)
            }),
    {
        self.last_save_time = now_secs;
        self.is_saving = false;
    }

    /// Ends a rewrite that is done.
    pub fn end_rewrite(&mut self)
        ensures
            *final(self) == (Router { is_saving: false, ..*old(self) }),
    {
        self.is_saving = false;
    }

    /// Where a walk over the keys goes on: the shard in the high half of the cursor, and the place
    /// there in the low half. There is nothing behind the last shard.
    pub fn scan_from(&self, cursor: u64) -> (r: Option<(usize, usize)>)
        ensures
            r == if cursor_shard(cursor) >= self.num_shards {
                None
            } else {
                Some((cursor_shard(cursor) as usize, cursor_place(cursor) as usize))
            },
    {
        let shard: u64 = cursor >> 32;
        let place: u64 = cursor & 0xffff_ffff;
        assert(shard <= 0xffff_ffff && place <= 0xffff_ffff) by (bit_vector)
            requires
                shard == cursor >> 32,
                place == cursor & 0xffff_ffff,
        ;
        if shard >= self.num_shards as u64 {
            return None;
        }
        Some((shard as usize, place as usize))
    }

    /// The cursor behind a stretch of a walk over the keys: further at the same shard, or at the
    /// beginning of the next one, or zero behind the last.
    pub fn scan_next(&self, shard: usize, next_place: usize) -> (r: u64)
        requires
            shard < self.num_shards,
            self.num_shards <= 0xffff_ffff,
        ensures
            r == next_cursor(shard, next_place, self.num_shards),
    {
        if next_place == 0 {
            if shard + 1 < self.num_shards {
                ((shard + 1) as u64) << 32
            } else {
                0
            }
        } else {
            ((shard as u64) << 32) | (next_place as u64)
        }
    }
}

/// The shard that a cursor stands for.
pub open spec fn cursor_shard(cursor: u64) -> u64 {
    cursor >> 32
}

/// The place that a cursor stands for.
pub open spec fn cursor_place(cursor: u64) -> u64 {
    cursor & 0xffff_ffff
}

/// The cursor behind a stretch of a walk over the keys.
pub open spec fn next_cursor(shard: usize, next_place: usize, num_shards: usize) -> u64 {
    if next_place == 0 {
        if shard + 1 < num_shards {
            ((shard + 1) as u64) << 32
        } else {
            0
        }
    } else {
        ((shard as u64) << 32) | (next_place as u64)
    }
}

/// A walk over the keys goes on where it stopped, and from the end of a shard at the beginning of the
/// next.
pub proof fn law_cursor_goes_on(shard: usize, place: usize, num_shards: usize)
    requires
        shard < num_shards <= 0xffff_ffff,
        place <= 0xffff_ffff,
    ensures
        place > 0 ==> cursor_shard(next_cursor(shard, place, num_shards)) == shard
            && cursor_place(next_cursor(shard, place, num_shards)) == place,
        place == 0 && shard + 1 < num_shards ==> cursor_shard(
            next_cursor(shard, place, num_shards),
        ) == shard + 1 && cursor_place(next_cursor(shard, place, num_shards)) == 0,
        place == 0 && shard + 1 == num_shards ==> next_cursor(shard, place, num_shards) == 0,
{
    let s = shard as u64;
    let t = (shard + 1) as u64;
    let p = place as u64;
    assert(((s << 32) | p) >> 32 == s && ((s << 32) | p) & 0xffff_ffff == p) by (bit_vector)
        requires
            s <= 0xffff_ffff,
            p <= 0xffff_ffff,
    ;
    assert((t << 32) >> 32 == t && (t << 32) & 0xffff_ffff == 0) by (bit_vector)
        requires
            t <= 0xffff_ffff,
    ;
}

/// The bytes of names that have places.
pub open spec fn placed_contents(s: Seq<(usize, Bytes)>) -> Seq<(usize, Seq<u8>)> {
    s.map_values(|x: (usize, Bytes)| (x.0, content(x.1)))
}

/// The share in names is the share in their bytes.
proof fn lemma_placed_share(names: Seq<Bytes>, targets: Seq<usize>, shard: usize, n: nat)
    requires
        n <= names.len(),
        targets.len() == names.len(),
    ensures
        placed_contents(share(names, targets, shard, n)) == share(
            contents(names),
            targets,
            shard,
            n,
        ),
    decreases n,
{
    if n > 0 {
        lemma_placed_share(names, targets, shard, (n - 1) as nat);
    }
    assert(placed_contents(share(names, targets, shard, n)) =~= share(
        contents(names),
        targets,
        shard,
        n,
    ));
}

/// Whether a slot is in one of the ranges.
pub open spec fn in_ranges(ranges: Seq<(u16, u16)>, slot: u16) -> bool {
    exists|i: int| 0 <= i < ranges.len() && (#[trigger] ranges[i]).0 <= slot <= ranges[i].1
}

/// One range more.
proof fn lemma_ranges_step(ranges: Seq<(u16, u16)>, i: int, slot: u16)
    requires
        0 <= i < ranges.len(),
    ensures
        in_ranges(ranges.take(i + 1), slot) <==> in_ranges(ranges.take(i), slot) || ranges[i].0
            <= slot <= ranges[i].1,
{
    let longer = ranges.take(i + 1);
    let shorter = ranges.take(i);
    if in_ranges(longer, slot) {
        let k = choose|k: int|
            0 <= k < longer.len() && (#[trigger] longer[k]).0 <= slot <= longer[k].1;
        if k < i {
            assert(shorter[k] == longer[k]);
        }
    }
    if in_ranges(shorter, slot) {
        let k = choose|k: int|
            0 <= k < shorter.len() && (#[trigger] shorter[k]).0 <= slot <= shorter[k].1;
        assert(longer[k] == shorter[k]);
    }
    assert(longer[i] == ranges[i]);
}

/// A routing before and after a slot was given to an owner, and put to rest.
pub open spec fn given(before: Router, after: Router, slot: u16, owner: usize) -> bool {
    &&& after == (Router {
        slot_states: after.slot_states,
        slot_owners: after.slot_owners,
        ..before
    })
    &&& after.slot_states@ == before.slot_states@.remove(slot)
    &&& after.slot_owners@ == before.slot_owners@.update(slot as int, owner)
}

/// A slot that is given to an owner is at rest and leads the keys of the slot there. Other slots keep
/// their owners and states, and no other key goes elsewhere than before. Each other shard is told
/// once.
pub proof fn law_owner_gets_the_keys(
    before: Router,
    after: Router,
    slot: u16,
    owner: usize,
    key: Seq<u8>,
    clustered: bool,
)
    requires
        before.wf(),
        slot < SLOT_COUNT,
        given(before, after, slot, owner),
    ensures
        after.slot_owners@[slot as int] == owner,
        after.phase(slot) == Phase::Stable,
        forall|s: u16|
            s != slot && s < SLOT_COUNT ==> #[trigger] after.slot_owners@[s as int]
                == before.slot_owners@[s as int],
        forall|s: u16| s != slot ==> #[trigger] after.phase(s) == before.phase(s),
        (before.cluster_enabled || clustered) && slot_of(key) == slot ==> after.home(key, clustered)
            == owner,
        slot_of(key) != slot ==> after.home(key, clustered) == before.home(key, clustered),
        !before.cluster_enabled && !clustered ==> after.home(key, clustered) == before.home(
            key,
            clustered,
        ),
        before.others().no_duplicates(),
        forall|s: usize|
            before.others().contains(s) <==> s < before.num_shards && s != before.shard_id,
{
    assert forall|s: usize|
        before.others().contains(s) <==> s < before.num_shards && s != before.shard_id by {
        if s < before.shard_id {
            assert(before.others()[s as int] == s);
        } else if before.shard_id < s < before.num_shards {
            assert(before.others()[s - 1] == s);
        }
    }
}

/// Every key belongs to one of the shards.
pub proof fn lemma_home(router: Router, key: Seq<u8>, clustered: bool)
    requires
        router.wf(),
        router.covered(),
    ensures
        router.home(key, clustered) < router.num_shards,
{
}

/// A key's shard is the same whether or not the hash of the key is asked for with it, and the hash
/// is that of the whole key.
pub proof fn law_hash_beside_shard(
    router: Router,
    key: &[u8],
    clustered: bool,
    shard: usize,
    both: (usize, u64),
)
    requires
        router.wf(),
        call_ensures(Router::target_shard, (&router, key, clustered), shard),
        call_ensures(Router::target_shard_and_hash, (&router, key, clustered), both),
    ensures
        both == (shard, key_hash(key@)),
{
}

/// A command of a master's stream is carried out where its shard is known, here or elsewhere. Without
/// a shard, what empties the data set empties all shards, several pairs are set and several keys are
/// deleted one by one, and all else is carried out here.
pub proof fn law_stream_commands_go_home(
    router: Router,
    target: Option<usize>,
    command: Command,
    r: ReplicaPlan,
)
    requires
        call_ensures(Router::plan_replica_command, (&router, target, command), r),
    ensures
        target == Some(router.shard_id) ==> r == ReplicaPlan::Here(command),
        target matches Some(t) ==> t != router.shard_id ==> r == ReplicaPlan::At(t, command),
        target is None && (command@ is Flushall || command@ is Flushdb) ==> r is Empty,
        target is None && command@ is Mset ==> r is SetEach && pair_contents(r->SetEach_0@)
            == command@->Mset_0,
        target is None && command@ is Del ==> r is DeleteEach && contents(r->DeleteEach_0@)
            == command@->Del_0,
        target is None && !(command@ is Flushall || command@ is Flushdb || command@ is Mset
            || command@ is Del) ==> r == ReplicaPlan::Here(command),
{
}

/// Keys, slots and shard channels are sought in one place: what goes here is what belongs to this
/// shard, and what goes elsewhere goes to the shard that it belongs to. A shard channel belongs to
/// the shard that an even spread gives its slot.
pub proof fn law_routes_lead_home(
    router: Router,
    key: &[u8],
    clustered: bool,
    shard: usize,
    route: Route,
    del: Route,
    channel: Route,
)
    requires
        router.wf(),
        call_ensures(Router::target_shard, (&router, key, clustered), shard),
        call_ensures(Router::route, (&router, key, clustered), route),
        call_ensures(Router::route_del, (&router, key, clustered), del),
        call_ensures(Router::route_shard_channel, (&router, key), channel),
    ensures
        route == Route::Here <==> shard == router.shard_id,
        route matches Route::At(s) ==> s == shard && s != router.shard_id,
        del == route,
        router.cluster_enabled || clustered ==> shard == router.slot_owners@[slot_of(key@) as int],
        !router.cluster_enabled && !clustered && router.num_shards > 1 ==> shard as int == key_hash(
            hash_tag(key@),
        ) as usize as int % router.num_shards as int,
        channel matches Route::At(s) ==> s != router.shard_id && s * 16384 <= slot_of(key@)
            * router.num_shards < (s + 1) * 16384,
        channel == Route::Here ==> router.shard_id * 16384 <= slot_of(key@) * router.num_shards < (
        router.shard_id + 1) * 16384,
{
    let n = router.num_shards as nat;
    let slot = slot_of(key@);
    let e = even_shard(slot, n);
    law_whole_key_without_tag(key@, n);
    law_shards_share_evenly(slot, key@, n, e);
    assert(e < n) by (nonlinear_arith)
        requires
            e * 16384 <= slot * n,
            slot < 16384,
            n > 0,
    ;
}

/// A routing before and after the state of a slot was noted.
pub open spec fn noted(before: Router, after: Router, slot: u16, state: Phase) -> bool {
    &&& after.slot_states@ == match state {
        Phase::Stable => before.slot_states@.remove(slot),
        phase => before.slot_states@.insert(slot, phase),
    }
    &&& after.slot_owners == before.slot_owners
}

/// The state of a slot that is noted is the one that clients are served by; the states of all other
/// slots stay, and the owners of all. So a slot that has moved sends everybody away from the moment on
/// when that is noted.
pub proof fn law_noted_states_serve(
    before: Router,
    after: Router,
    slot: u16,
    state: Phase,
    other: u16,
    key_exists: bool,
    asking: bool,
)
    requires
        noted(before, after, slot, state),
    ensures
        after.phase(slot) == state,
        other != slot ==> after.phase(other) == before.phase(other),
        after.slot_owners == before.slot_owners,
        redirection(after.phase(slot), slot, key_exists, asking) == redirection(
            state,
            slot,
            key_exists,
            asking,
        ),
        state is Moved ==> redirection(after.phase(slot), slot, key_exists, asking) is Some,
        state is Stable ==> redirection(after.phase(slot), slot, key_exists, asking) is None,
{
}

} // verus!
