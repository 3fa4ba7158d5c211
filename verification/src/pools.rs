//! Descriptors of work that is spread over the shards, kept to be used again.
use vstd::prelude::*;

verus! {

/// How many descriptors a pool keeps.
pub const POOL_LIMIT: usize = 32;

/// A descriptor, with the number of results and of shards that it has room for.
pub struct Pooled<T> {
    pub item: T,
    pub results: usize,
    pub lanes: usize,
}

/// Descriptors that wait to be used again.
pub struct DescriptorPool<T> {
    pub entries: Vec<Pooled<T>>,
}

/// Whether a descriptor is large enough.
pub open spec fn roomy<T>(p: Pooled<T>, total_keys: usize, num_shards: usize) -> bool {
    p.results >= total_keys && p.lanes >= num_shards
}

/// The last of the first `n` descriptors that is large enough and that nobody uses.
pub open spec fn last_fit<T>(
    entries: Seq<Pooled<T>>,
    idle: Seq<bool>,
    total_keys: usize,
    num_shards: usize,
    n: nat,
) -> Option<int>
    decreases n,
{
    if n == 0 {
        None
    } else if roomy(entries[n - 1], total_keys, num_shards) && idle[n - 1] {
        Some(n - 1)
    } else {
        last_fit(entries, idle, total_keys, num_shards, (n - 1) as nat)
    }
}

/// The room for results that a new descriptor gets: at least that for 64.
pub fn new_capacity(total_keys: usize) -> (r: usize)
    ensures
        r == if total_keys > 64 {
            total_keys
        } else {
            64
        },
{
    if total_keys > 64 {
        total_keys
    } else {
        64
    }
}

impl<T> DescriptorPool<T> {
    /// No descriptors.
    pub fn new() -> (r: Self)
        ensures
            r.entries@.len() == 0,
    {
        DescriptorPool { entries: Vec::new() }
    }

    /// Takes out the last descriptor that is large enough and that nobody uses, if there is one.
    /// Those that were passed over on the way come to stand the other way round.
    pub fn acquire(&mut self, total_keys: usize, num_shards: usize, idle: &Vec<bool>) -> (r: Option<
        Pooled<T>,
    >)
        requires
            idle@.len() == old(self).entries@.len(),
        ensures
            match last_fit(
                old(self).entries@,
                idle@,
                total_keys,
                num_shards,
                old(self).entries@.len(),
            ) {
                Some(i) => {
                    &&& 0 <= i < old(self).entries@.len()
                    &&& r == Some(old(self).entries@[i])
                    &&& final(self).entries@ == old(self).entries@.take(i) + old(
                        self,
                    ).entries@.skip(i + 1).reverse()
                },
                None => r is None && final(self).entries@ == old(self).entries@.reverse(),
            },
    {
        let mut kept: Vec<Pooled<T>> = Vec::new();
        let mut chosen: Option<Pooled<T>> = None;
        let ghost all = self.entries@;
        let total: usize = self.entries.len();
        let mut left: usize = total;
        assert(kept@ =~= all.skip(left as int).reverse());
        while left > 0 && chosen.is_none()
            invariant
                total == all.len(),
                idle@.len() == all.len(),
                left <= total,
                self.entries@ == all.take(left as int),
                match chosen {
                    None => {
                        &&& kept@ == all.skip(left as int).reverse()
                        &&& last_fit(all, idle@, total_keys, num_shards, total as nat) == last_fit(
                            all,
                            idle@,
                            total_keys,
                            num_shards,
                            left as nat,
                        )
                    },
                    Some(p) => {
                        &&& left < total
                        &&& p == all[left as int]
                        &&& kept@ == all.skip(left + 1).reverse()
                        &&& last_fit(all, idle@, total_keys, num_shards, total as nat) == Some(
                            left as int,
                        )
                    },
                },
            decreases left,
        {
            match self.entries.pop() {
                Some(entry) => {
                    left -= 1;
                    assert(self.entries@ =~= all.take(left as int));
                    if entry.results >= total_keys && entry.lanes >= num_shards && idle[left] {
                        chosen = Some(entry);
                    } else {
                        let ghost before = kept@;
                        kept.push(entry);
                        assert(kept@ =~= all.skip(left as int).reverse());
                    }
                },
                None => {
                    left = 0;
                },
            }
        }
        let ghost front = self.entries@;
        let ghost back = kept@;
        self.entries.append(&mut kept);
        assert(self.entries@ =~= front + back);
        proof {
            if chosen is None {
                assert(front =~= Seq::empty());
                assert(all.skip(0) =~= all);
                assert(self.entries@ =~= all.reverse());
            }
        }
        chosen
    }

    /// Keeps a descriptor, while there is room.
    pub fn release(&mut self, entry: Pooled<T>)
        ensures
            final(self).entries@ == if old(self).entries@.len() < POOL_LIMIT {
                old(self).entries@.push(entry)
            } else {
                old(self).entries@
            },
    {
        if self.entries.len() < POOL_LIMIT {
            self.entries.push(entry);
        }
    }
}

/// A descriptor that is kept and large enough is used again, as long as nobody uses it.
pub proof fn law_released_is_acquired<T>(
    entries: Seq<Pooled<T>>,
    idle: Seq<bool>,
    entry: Pooled<T>,
    total_keys: usize,
    num_shards: usize,
)
    requires
        idle.len() == entries.len() + 1,
        idle.last(),
        roomy(entry, total_keys, num_shards),
    ensures
        last_fit(entries.push(entry), idle, total_keys, num_shards, entries.len() + 1) == Some(
            entries.len() as int,
        ),
{
}

} // verus!
