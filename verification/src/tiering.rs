//! When values leave memory for the disk and come back, and what is counted of it.
use vstd::prelude::*;

use crate::router::Router;
use crate::text::same_text;

verus! {

/// What a server counts of its tiers, and the limits that it is given. The counters wrap.
#[derive(Clone, Copy, Debug, PartialEq, Eq, Structural)]
pub struct TieringStats {
    pub max_memory: u64,
    pub offload_threshold_pct: u64,
    pub tiered_keys: u64,
    pub tiered_bytes: u64,
    pub ram_saved_bytes: u64,
    pub cooled_keys: u64,
    pub total_fetches: u64,
    pub decommit_count: u64,
    pub streaming_reads: u64,
    pub ram_misses: u64,
    pub ram_hits: u64,
}

impl TieringStats {
    /// With a value that came back into memory.
    pub open spec fn loaded(self, value_len: u64) -> TieringStats {
        TieringStats {
            total_fetches: self.total_fetches.wrapping_add(1),
            tiered_keys: self.tiered_keys.wrapping_sub(1),
            cooled_keys: self.cooled_keys.wrapping_add(1),
            ram_saved_bytes: self.ram_saved_bytes.wrapping_sub(value_len),
            ..self
        }
    }

    /// With values that left memory for copies that the disk already had.
    pub open spec fn decommitted(self, count: u64, freed: u64) -> TieringStats {
        if count > 0 {
            TieringStats {
                cooled_keys: self.cooled_keys.wrapping_sub(count),
                tiered_keys: self.tiered_keys.wrapping_add(count),
                ram_saved_bytes: self.ram_saved_bytes.wrapping_add(freed),
                decommit_count: self.decommit_count.wrapping_add(count),
                ..self
            }
        } else {
            self
        }
    }

    /// Counts a value that went to the disk.
    pub fn note_spilled(&mut self, stored_len: u64, value_len: u64)
        ensures
            *final(self) == (TieringStats {
                tiered_keys: old(self).tiered_keys.wrapping_add(1),
                tiered_bytes: old(self).tiered_bytes.wrapping_add(stored_len),
                ram_saved_bytes: old(self).ram_saved_bytes.wrapping_add(value_len),
                ..*old(self)
            }),
    {
        self.tiered_keys = self.tiered_keys.wrapping_add(1);
        self.tiered_bytes = self.tiered_bytes.wrapping_add(stored_len);
        self.ram_saved_bytes = self.ram_saved_bytes.wrapping_add(value_len);
    }

    /// Counts a value that came back into memory; its copy on the disk stays.
    pub fn note_loaded(&mut self, value_len: u64)
        ensures
            *final(self) == old(self).loaded(value_len),
    {
        self.total_fetches = self.total_fetches.wrapping_add(1);
        self.tiered_keys = self.tiered_keys.wrapping_sub(1);
        self.cooled_keys = self.cooled_keys.wrapping_add(1);
        self.ram_saved_bytes = self.ram_saved_bytes.wrapping_sub(value_len);
    }

    /// Counts a value that was copied to the disk and stays in memory.
    pub fn note_cooled(&mut self, stored_len: u64)
        ensures
            *final(self) == (TieringStats {
                cooled_keys: old(self).cooled_keys.wrapping_add(1),
                tiered_bytes: old(self).tiered_bytes.wrapping_add(stored_len),
                ..*old(self)
            }),
    {
        self.cooled_keys = self.cooled_keys.wrapping_add(1);
        self.tiered_bytes = self.tiered_bytes.wrapping_add(stored_len);
    }

    /// Counts values that left memory for copies that the disk already had.
    pub fn note_decommitted(&mut self, count: u64, freed: u64)
        ensures
            *final(self) == old(self).decommitted(count, freed),
    {
        if count > 0 {
            self.cooled_keys = self.cooled_keys.wrapping_sub(count);
            self.tiered_keys = self.tiered_keys.wrapping_add(count);
            self.ram_saved_bytes = self.ram_saved_bytes.wrapping_add(freed);
            self.decommit_count = self.decommit_count.wrapping_add(count);
        }
    }

    /// Counts a value that was read from the disk without coming into memory.
    pub fn note_streamed(&mut self)
        ensures
            *final(self) == (TieringStats {
                streaming_reads: old(self).streaming_reads.wrapping_add(1),
                ram_misses: old(self).ram_misses.wrapping_add(1),
                ..*old(self)
            }),
    {
        self.streaming_reads = self.streaming_reads.wrapping_add(1);
        self.ram_misses = self.ram_misses.wrapping_add(1);
    }

    /// Counts a value that was found in memory.
    pub fn note_hit(&mut self)
        ensures
            *final(self) == (TieringStats {
                ram_hits: old(self).ram_hits.wrapping_add(1),
                ..*old(self)
            }),
    {
        self.ram_hits = self.ram_hits.wrapping_add(1);
    }
}

/// The memory that one shard may use of that of the server.
pub open spec fn shard_limit(max_memory: u64, num_shards: nat) -> int {
    max_memory as int / if num_shards > 1 {
        num_shards as int
    } else {
        1
    }
}

/// Whether a shard uses so much memory that nothing is brought back into it: a part of its share of
/// the limit, given in percent. Without a limit it never does.
pub open spec fn constrained(
    max_memory: u64,
    percent: u64,
    used: nat,
    num_shards: nat,
) -> bool {
    max_memory > 0 && used >= shard_limit(max_memory, num_shards) * percent / 100
}

/// Whether a shard uses more memory than its share of the limit. Without a limit it never does.
pub open spec fn over_limit(max_memory: u64, used: nat, num_shards: nat) -> bool {
    max_memory > 0 && used > shard_limit(max_memory, num_shards)
}

/// What is done with a value that is to leave memory: nothing, or its memory is freed since the disk
/// has a copy, or it is written to the disk.
#[derive(Clone, Copy, Debug, PartialEq, Eq, Structural)]
pub enum SpillPlan {
    Refuse,
    Decommit,
    Stash,
}

/// What is done with a value that is to leave memory. A value that is to stay, or is not there, is
/// left alone, and so is every value where there is no disk to go to.
pub fn plan_spill(sticky: bool, cooled: bool, has_value: bool, has_tier: bool) -> (r: SpillPlan)
    ensures
        r == if sticky {
            SpillPlan::Refuse
        } else if cooled {
            SpillPlan::Decommit
        } else if has_value && has_tier {
            SpillPlan::Stash
        } else {
            SpillPlan::Refuse
        },
{
    if sticky {
        return SpillPlan::Refuse;
    }
    if cooled {
        return SpillPlan::Decommit;
    }
    if !has_value || !has_tier {
        return SpillPlan::Refuse;
    }
    SpillPlan::Stash
}

/// Whether a value is copied to the disk while it stays in memory: only one that may leave, is there
/// and has no copy.
pub fn plan_cool(sticky: bool, tiered: bool, cooled: bool, has_value: bool, has_tier: bool) -> (r:
    bool)
    ensures
        r == (!sticky && !tiered && !cooled && has_value && has_tier),
{
    if sticky || tiered || cooled {
        return false;
    }
    has_value && has_tier
}

/// How a value is read: from memory, not at all, from the disk without bringing it back, or by
/// bringing it back.
#[derive(Clone, Copy, Debug, PartialEq, Eq, Structural)]
pub enum ReadPlan {
    Hit,
    Miss,
    Stream,
    Load,
}

/// How a value is read.
pub fn plan_read(found: bool, has_tier: bool, tiered: bool, is_constrained: bool) -> (r: ReadPlan)
    ensures
        r == if found {
            ReadPlan::Hit
        } else if !has_tier || !tiered {
            ReadPlan::Miss
        } else if is_constrained {
            ReadPlan::Stream
        } else {
            ReadPlan::Load
        },
{
    if found {
        return ReadPlan::Hit;
    }
    if !(has_tier && tiered) {
        return ReadPlan::Miss;
    }
    if is_constrained {
        ReadPlan::Stream
    } else {
        ReadPlan::Load
    }
}

/// What the snapshots of several shards come to, among the first `n`: whether all are by reference,
/// and their bytes.
pub open spec fn snapshots_total(local: (bool, u64), remote: Seq<(bool, u64)>) -> (bool, u64)
    decreases remote.len(),
{
    if remote.len() == 0 {
        local
    } else {
        let (all, bytes) = snapshots_total(local, remote.drop_last());
        (all && remote.last().0, bytes.wrapping_add(remote.last().1))
    }
}

/// What the snapshots of this shard and others come to: whether all are by reference, their bytes,
/// and how many there are.
pub fn merge_snapshots(local: (bool, u64), remote: &Vec<(bool, u64)>) -> (r: (bool, u64, usize))
    requires
        remote@.len() < usize::MAX,
    ensures
        (r.0, r.1) == snapshots_total(local, remote@),
        r.2 == remote@.len() + 1,
{
    let mut all: bool = local.0;
    let mut bytes: u64 = local.1;
    let mut i: usize = 0;
    assert(remote@.take(0).len() == 0);
    while i < remote.len()
        invariant
            i <= remote.len(),
            (all, bytes) == snapshots_total(local, remote@.take(i as int)),
        decreases remote.len() - i,
    {
        proof {
            assert(remote@.take(i + 1).drop_last() == remote@.take(i as int));
        }
        let (by_reference, more): (bool, u64) = remote[i];
        bytes = bytes.wrapping_add(more);
        if !by_reference {
            all = false;
        }
        i += 1;
    }
    assert(remote@.take(i as int) == remote@);
    (all, bytes, remote.len() + 1)
}

impl Router {
    /// The memory that this shard may use.
    fn limit(&self, max_memory: u64) -> (r: u64)
        ensures
            r == shard_limit(max_memory, self.num_shards as nat),
    {
        let shards: u64 = if self.num_shards > 1 {
            self.num_shards as u64
        } else {
            1
        };
        max_memory / shards
    }

    /// Whether this shard uses so much memory that nothing is brought back into it.
    pub fn is_memory_constrained(&self, stats: &TieringStats, used_memory: usize) -> (r: bool)
        ensures
            r == constrained(
                stats.max_memory,
                stats.offload_threshold_pct,
                used_memory as nat,
                self.num_shards as nat,
            ),
    {
        if stats.max_memory == 0 {
            return false;
        }
        let limit: u64 = self.limit(stats.max_memory);
        let percent: u64 = stats.offload_threshold_pct;
        assert(limit * percent <= 0xffff_ffff_ffff_ffff * 0xffff_ffff_ffff_ffff) by (nonlinear_arith)
            requires
                limit <= 0xffff_ffff_ffff_ffff,
                percent <= 0xffff_ffff_ffff_ffff,
        ;
        used_memory as u128 >= (limit as u128 * percent as u128) / 100
    }

    /// Whether this shard, after a write, is to free memory.
    pub fn is_over_limit(&self, max_memory: u64, used_memory: usize) -> (r: bool)
        ensures
            r == (over_limit(max_memory, used_memory as nat, self.num_shards as nat)
                && !self.is_auto_tiering),
    {
        max_memory > 0 && used_memory as u64 > self.limit(max_memory) && !self.is_auto_tiering
    }

    /// Whether values are to be moved to the disk, once memory was freed that the disk had copies of.
    pub fn starts_tiering(
        &self,
        max_memory: u64,
        decommitted: usize,
        used_memory: usize,
    ) -> (r: bool)
        ensures
            r == ((decommitted == 0 || used_memory > shard_limit(
                max_memory,
                self.num_shards as nat,
            )) && !self.is_auto_tiering),
    {
        (decommitted == 0 || used_memory as u64 > self.limit(max_memory)) && !self.is_auto_tiering
    }

    /// Whether one more key is to be evicted, after a number of attempts.
    pub fn evicts(&self, policy: &str, max_memory: u64, used_memory: usize, attempts: usize) -> (r:
        bool)
        ensures
            r == (policy@ != "noeviction"@ && used_memory > shard_limit(
                max_memory,
                self.num_shards as nat,
            ) && attempts < 32),
    {
        !same_text(policy, "noeviction") && used_memory as u64 > self.limit(max_memory) && attempts
            < 32
    }

    /// Begins to move values to the disk, and says whether there is anything to do: not while it is
    /// being done, nor without a limit, nor below the limit, which counts as one byte at least.
    pub fn begin_tiering(&mut self, max_memory: u64, used_memory: usize) -> (r: bool)
        ensures
            r == (!old(self).is_auto_tiering && max_memory > 0 && used_memory > tiering_limit(
                max_memory,
                old(self).num_shards as nat,
            )),
            *final(self) == (Router {
                is_auto_tiering: old(self).is_auto_tiering || r,
                ..*old(self)
            }),
    {
        if self.is_auto_tiering {
            return false;
        }
        if max_memory == 0 || self.is_tiering_done(max_memory, used_memory) {
            return false;
        }
        self.is_auto_tiering = true;
        true
    }

    /// Whether enough was moved to the disk.
    pub fn is_tiering_done(&self, max_memory: u64, used_memory: usize) -> (r: bool)
        ensures
            r == (used_memory <= tiering_limit(max_memory, self.num_shards as nat)),
    {
        let limit: u64 = self.limit(max_memory);
        used_memory as u64 <= if limit > 1 {
            limit
        } else {
            1
        }
    }

    /// Ends to move values to the disk.
    pub fn end_tiering(&mut self)
        ensures
            *final(self) == (Router { is_auto_tiering: false, ..*old(self) }),
    {
        self.is_auto_tiering = false;
    }
}

/// The memory of a shard above which values are moved to the disk: at least one byte.
pub open spec fn tiering_limit(max_memory: u64, num_shards: nat) -> int {
    if shard_limit(max_memory, num_shards) > 1 {
        shard_limit(max_memory, num_shards)
    } else {
        1
    }
}

/// A value that comes back into memory and leaves it again is counted as before, but for the fetch
/// and the freeing themselves.
pub proof fn law_load_and_decommit_balance(s: TieringStats, value_len: u64)
    ensures
        s.loaded(value_len).decommitted(1, value_len) == (TieringStats {
            total_fetches: s.total_fetches.wrapping_add(1),
            decommit_count: s.decommit_count.wrapping_add(1),
            ..s
        }),
{
}

/// The shares of the shards in the memory limit are even, and together no more than the limit; a shard
/// is over its share only where there is a limit; and more memory in use never frees a shard from its
/// limits.
pub proof fn law_memory_is_shared(
    max_memory: u64,
    percent: u64,
    used: nat,
    more: nat,
    num_shards: nat,
)
    requires
        num_shards > 0,
        used <= more,
    ensures
        shard_limit(max_memory, num_shards) * num_shards <= max_memory < (shard_limit(
            max_memory,
            num_shards,
        ) + 1) * num_shards,
        max_memory == 0 ==> !over_limit(max_memory, used, num_shards) && !constrained(
            max_memory,
            percent,
            used,
            num_shards,
        ),
        over_limit(max_memory, used, num_shards) ==> over_limit(max_memory, more, num_shards)
            && used * num_shards > max_memory - num_shards,
        max_memory > 0 && used > shard_limit(max_memory, num_shards) ==> over_limit(
            max_memory,
            used,
            num_shards,
        ),
        constrained(max_memory, percent, used, num_shards) ==> constrained(
            max_memory,
            percent,
            more,
            num_shards,
        ),
        max_memory > 0 ==> (constrained(max_memory, percent, used, num_shards) <==> 100 * used + 99
            >= shard_limit(max_memory, num_shards) * percent),
        tiering_limit(max_memory, num_shards) >= 1,
        shard_limit(max_memory, num_shards) >= 1 ==> tiering_limit(max_memory, num_shards)
            == shard_limit(max_memory, num_shards),
{
    let m = max_memory as int;
    let n = num_shards as int;
    let l = shard_limit(max_memory, num_shards);
    assert(l == m / n);
    assert(l * n <= m < (l + 1) * n) by (nonlinear_arith)
        requires
            l == m / n,
            n > 0,
            m >= 0,
    ;
    let u = used as int;
    if u > l {
        assert(u * n > m - n) by (nonlinear_arith)
            requires
                u >= l + 1,
                m < (l + 1) * n,
                n > 0,
        ;
    }
    let p = l * percent;
    assert((u >= p / 100) <==> (100 * u + 99 >= p));
}

/// A value that is to stay is never moved or copied; one with a copy on the disk is freed and not
/// written again; and nothing goes to a disk that is not there.
pub proof fn law_values_that_may_leave(
    sticky: bool,
    tiered: bool,
    cooled: bool,
    has_value: bool,
    has_tier: bool,
    spill: SpillPlan,
    cool: bool,
)
    requires
        call_ensures(plan_spill, (sticky, cooled, has_value, has_tier), spill),
        call_ensures(plan_cool, (sticky, tiered, cooled, has_value, has_tier), cool),
    ensures
        spill == SpillPlan::Decommit <==> cooled && !sticky,
        spill == SpillPlan::Stash <==> !sticky && !cooled && has_value && has_tier,
        cool <==> !sticky && !tiered && !cooled && has_value && has_tier,
        cool ==> spill == SpillPlan::Stash,
{
}

/// A value that is in memory is read there; one that is on the disk is brought back, unless memory is
/// short; and one that is nowhere is missed.
pub proof fn law_reads_find_values(
    found: bool,
    has_tier: bool,
    tiered: bool,
    is_constrained: bool,
    r: ReadPlan,
)
    requires
        call_ensures(plan_read, (found, has_tier, tiered, is_constrained), r),
    ensures
        r == ReadPlan::Hit <==> found,
        r == ReadPlan::Load <==> !found && has_tier && tiered && !is_constrained,
        r == ReadPlan::Stream <==> !found && has_tier && tiered && is_constrained,
        r == ReadPlan::Miss <==> !found && !(has_tier && tiered),
{
}

} // verus!
