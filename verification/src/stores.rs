//! What the plans for several keys come to over the stores of all shards.
use bytes::Bytes;
use vstd::prelude::*;

use crate::lists::contents;
use crate::octets::content;
use crate::router::{lemma_home, DelPlan, MgetPlan, MsetPlan, Router};
use crate::scatter::{
    all_answers, answered, deleted, law_answers_come_back_in_place, law_every_item_is_dealt_once,
    share, unplaced, written,
};

verus! {

/// What the shards store: of each, the values of its keys.
pub type Stores = Seq<Map<Seq<u8>, Seq<u8>>>;

/// The value of a key in a store, if it is there.
pub open spec fn lookup(store: Map<Seq<u8>, Seq<u8>>, key: Seq<u8>) -> Option<Seq<u8>> {
    if store.dom().contains(key) {
        Some(store[key])
    } else {
        None
    }
}

/// A store with pairs put in, one after the other.
pub open spec fn stored(
    store: Map<Seq<u8>, Seq<u8>>,
    pairs: Seq<(Bytes, Bytes)>,
) -> Map<Seq<u8>, Seq<u8>>
    decreases pairs.len(),
{
    if pairs.len() == 0 {
        store
    } else {
        stored(store, pairs.drop_last()).insert(content(pairs.last().0), content(pairs.last().1))
    }
}

/// The value that the last pair with a key gives it, or else the one that it had.
pub open spec fn last_value(
    pairs: Seq<(Bytes, Bytes)>,
    key: Seq<u8>,
    had: Option<Seq<u8>>,
) -> Option<Seq<u8>>
    decreases pairs.len(),
{
    if pairs.len() == 0 {
        had
    } else if content(pairs.last().0) == key {
        Some(content(pairs.last().1))
    } else {
        last_value(pairs.drop_last(), key, had)
    }
}

/// The value of a key where it belongs.
pub open spec fn value_at_home(
    router: Router,
    stores: Stores,
    key: Seq<u8>,
    clustered: bool,
) -> Option<Seq<u8>> {
    lookup(stores[router.home(key, clustered) as int], key)
}

/// The stores before and after a plan to set pairs was carried out.
pub open spec fn mset_done(router: Router, plan: MsetPlan, before: Stores, after: Stores) -> bool {
    &&& before.len() == router.num_shards
    &&& after.len() == router.num_shards
    &&& match plan {
        MsetPlan::Nothing => after == before,
        MsetPlan::Single(p) | MsetPlan::Local(p) => after == before.update(
            router.shard_id as int,
            stored(before[router.shard_id as int], p@),
        ),
        MsetPlan::Scattered { batches, .. } => forall|s: int|
            0 <= s < router.num_shards ==> #[trigger] after[s] == stored(
                before[s],
                unplaced(batches@[s]@),
            ),
    }
}

/// A store after pairs, looked at from one key.
proof fn lemma_stored(store: Map<Seq<u8>, Seq<u8>>, pairs: Seq<(Bytes, Bytes)>, key: Seq<u8>)
    ensures
        lookup(stored(store, pairs), key) == last_value(pairs, key, lookup(store, key)),
    decreases pairs.len(),
{
    if pairs.len() > 0 {
        lemma_stored(store, pairs.drop_last(), key);
    }
}

/// Pairs with other keys leave a key what it had.
proof fn lemma_no_pair(pairs: Seq<(Bytes, Bytes)>, key: Seq<u8>, had: Option<Seq<u8>>)
    requires
        forall|i: int| 0 <= i < pairs.len() ==> content((#[trigger] pairs[i]).0) != key,
    ensures
        last_value(pairs, key, had) == had,
    decreases pairs.len(),
{
    if pairs.len() > 0 {
        assert(content(pairs[pairs.len() - 1].0) != key);
        lemma_no_pair(pairs.drop_last(), key, had);
    }
}

/// The share of the shard that a key belongs to has all its pairs, in order, and those of the other
/// shards have none.
proof fn lemma_last_in_share(
    pairs: Seq<(Bytes, Bytes)>,
    targets: Seq<usize>,
    shard: usize,
    n: nat,
    key: Seq<u8>,
    home: usize,
    had: Option<Seq<u8>>,
)
    requires
        n <= pairs.len() == targets.len(),
        forall|i: int|
            0 <= i < n && content((#[trigger] pairs[i]).0) == key ==> targets[i] == home,
    ensures
        last_value(unplaced(share(pairs, targets, shard, n)), key, had) == if shard == home {
            last_value(pairs.take(n as int), key, had)
        } else {
            had
        },
    decreases n,
{
    if n > 0 {
        let m = (n - 1) as nat;
        lemma_last_in_share(pairs, targets, shard, m, key, home, had);
        let part = unplaced(share(pairs, targets, shard, n));
        assert(pairs.take(n as int).drop_last() =~= pairs.take(m as int));
        if targets[m as int] == shard {
            assert(part.drop_last() =~= unplaced(share(pairs, targets, shard, m)));
            assert(part.last() == pairs[m as int]);
        }
    }
}

/// To set pairs gives each key the value of its last pair, at the shard that it belongs to, and
/// changes nothing else at any shard.
pub proof fn law_mset_sets_the_last_values(
    router: Router,
    pairs: Seq<(Bytes, Bytes)>,
    clustered: bool,
    plan: MsetPlan,
    before: Stores,
    after: Stores,
    shard: int,
    key: Seq<u8>,
)
    requires
        router.wf(),
        router.covered(),
        router.mset_planned(pairs, clustered, plan),
        mset_done(router, plan, before, after),
        0 <= shard < router.num_shards,
    ensures
        lookup(after[shard], key) == if shard == router.home(key, clustered) {
            last_value(pairs, key, lookup(before[shard], key))
        } else {
            lookup(before[shard], key)
        },
{
    let home = router.home(key, clustered);
    let targets = router.pair_homes(pairs, clustered);
    let had = lookup(before[shard], key);
    lemma_home(router, key, clustered);
    lemma_stored(before[shard], pairs, key);
    match plan {
        MsetPlan::Nothing => {},
        MsetPlan::Single(p) => {},
        MsetPlan::Local(p) => {
            if home != router.shard_id {
                assert forall|i: int| 0 <= i < pairs.len() implies content(
                    (#[trigger] pairs[i]).0,
                ) != key by {
                    assert(targets[i] == router.shard_id);
                }
                lemma_no_pair(pairs, key, had);
            }
        },
        MsetPlan::Scattered { batches, .. } => {
            let part = unplaced(batches@[shard]@);
            lemma_stored(before[shard], part, key);
            lemma_last_in_share(pairs, targets, shard as usize, pairs.len(), key, home, had);
            assert(pairs.take(pairs.len() as int) =~= pairs);
        },
    }
}

/// The answers of shards to their shares, each out of its own store, one behind the other.
pub open spec fn fetched(
    stores: Stores,
    batches: Seq<Vec<(usize, Bytes)>>,
    order: Seq<usize>,
) -> Seq<(usize, Option<Seq<u8>>)>
    decreases order.len(),
{
    if order.len() == 0 {
        Seq::empty()
    } else {
        let s = order.last() as int;
        fetched(stores, batches, order.drop_last()) + batches[s]@.map_values(
            |x: (usize, Bytes)| (x.0, lookup(stores[s], content(x.1))),
        )
    }
}

/// What a plan to read values comes to, when shards answer in an order.
pub open spec fn mget_result(
    router: Router,
    plan: MgetPlan,
    stores: Stores,
    order: Seq<usize>,
) -> Seq<Option<Seq<u8>>> {
    match plan {
        MgetPlan::Nothing => Seq::empty(),
        MgetPlan::Single(k) | MgetPlan::Local(k) => k@.map_values(
            |k: Bytes| lookup(stores[router.shard_id as int], content(k)),
        ),
        MgetPlan::Scattered(s) => written(
            Seq::new(s.total as nat, |i: int| None::<Seq<u8>>),
            fetched(stores, s.batches@, order),
        ),
    }
}

/// A shard's answers are those of the stores where the keys belong.
proof fn lemma_fetched(
    router: Router,
    keys: Seq<Bytes>,
    clustered: bool,
    batches: Seq<Vec<(usize, Bytes)>>,
    stores: Stores,
    order: Seq<usize>,
)
    requires
        keys.len() <= usize::MAX,
        forall|s: int|
            0 <= s < router.num_shards ==> (#[trigger] batches[s])@ == share(
                keys,
                router.homes(keys, clustered),
                s as usize,
                keys.len(),
            ),
        forall|i: int| 0 <= i < order.len() ==> #[trigger] order[i] < router.num_shards,
    ensures
        fetched(stores, batches, order) == all_answers(
            keys,
            router.homes(keys, clustered),
            order,
            |k: Bytes| value_at_home(router, stores, content(k), clustered),
        ),
    decreases order.len(),
{
    if order.len() > 0 {
        let f = |k: Bytes| value_at_home(router, stores, content(k), clustered);
        let targets = router.homes(keys, clustered);
        let s = order.last();
        assert(order[order.len() - 1] < router.num_shards);
        lemma_fetched(router, keys, clustered, batches, stores, order.drop_last());
        let part = share(keys, targets, s, keys.len());
        assert(batches[s as int]@ == part);
        let own = part.map_values(
            |x: (usize, Bytes)| (x.0, lookup(stores[s as int], content(x.1))),
        );
        assert forall|j: int| 0 <= j < part.len() implies own[j] == answered(part, f)[j] by {
            let x = part[j];
            assert(part.contains(x));
            law_every_item_is_dealt_once(keys, targets, s, x.0, x.1);
        }
        assert(own =~= answered(part, f));
    }
}

/// To read several keys gives each the value that it has at the shard it belongs to, in the order of
/// the keys, however the shards that are asked follow each other with their answers.
pub proof fn law_mget_reads_every_key(
    router: Router,
    keys: Seq<Bytes>,
    clustered: bool,
    plan: MgetPlan,
    stores: Stores,
    order: Seq<usize>,
)
    requires
        router.wf(),
        router.covered(),
        keys.len() <= usize::MAX,
        router.mget_planned(keys, clustered, plan),
        stores.len() == router.num_shards,
        forall|i: int| 0 <= i < order.len() ==> #[trigger] order[i] < router.num_shards,
        forall|k: Bytes| #[trigger]
            keys.contains(k) ==> order.contains(router.home(content(k), clustered)),
    ensures
        mget_result(router, plan, stores, order) == keys.map_values(
            |k: Bytes| value_at_home(router, stores, content(k), clustered),
        ),
{
    let f = |k: Bytes| value_at_home(router, stores, content(k), clustered);
    let targets = router.homes(keys, clustered);
    let r = mget_result(router, plan, stores, order);
    match plan {
        MgetPlan::Nothing => {},
        MgetPlan::Single(k) => {
            assert forall|i: int| 0 <= i < keys.len() implies r[i] == f(keys[i]) by {
                lemma_home(router, content(keys[i]), clustered);
            }
        },
        MgetPlan::Local(k) => {
            assert forall|i: int| 0 <= i < keys.len() implies r[i] == f(keys[i]) by {
                assert(targets[i] == router.shard_id);
            }
        },
        MgetPlan::Scattered(s) => {
            assert forall|i: int| 0 <= i < targets.len() implies order.contains(
                #[trigger] targets[i],
            ) by {
                assert(keys.contains(keys[i]));
            }
            lemma_fetched(router, keys, clustered, s.batches@, stores, order);
            law_answers_come_back_in_place(keys, targets, order, f);
        },
    }
    assert(r =~= keys.map_values(f));
}

/// A read after a write: once pairs are set, keys that are read have the value of their last pair,
/// and those without a pair the value that they had, whichever shards they belong to.
pub proof fn law_mget_after_mset(
    router: Router,
    pairs: Seq<(Bytes, Bytes)>,
    keys: Seq<Bytes>,
    clustered: bool,
    mset: MsetPlan,
    mget: MgetPlan,
    before: Stores,
    after: Stores,
    order: Seq<usize>,
)
    requires
        router.wf(),
        router.covered(),
        keys.len() <= usize::MAX,
        router.mset_planned(pairs, clustered, mset),
        mset_done(router, mset, before, after),
        router.mget_planned(keys, clustered, mget),
        forall|i: int| 0 <= i < order.len() ==> #[trigger] order[i] < router.num_shards,
        forall|k: Bytes| #[trigger]
            keys.contains(k) ==> order.contains(router.home(content(k), clustered)),
    ensures
        mget_result(router, mget, after, order) == keys.map_values(
            |k: Bytes|
                last_value(
                    pairs,
                    content(k),
                    value_at_home(router, before, content(k), clustered),
                ),
        ),
{
    law_mget_reads_every_key(router, keys, clustered, mget, after, order);
    let r = mget_result(router, mget, after, order);
    let want = keys.map_values(
        |k: Bytes|
            last_value(pairs, content(k), value_at_home(router, before, content(k), clustered)),
    );
    assert forall|i: int| 0 <= i < keys.len() implies r[i] == want[i] by {
        let key = content(keys[i]);
        let home = router.home(key, clustered);
        lemma_home(router, key, clustered);
        law_mset_sets_the_last_values(
            router,
            pairs,
            clustered,
            mset,
            before,
            after,
            home as int,
            key,
        );
    }
    assert(r =~= want);
}

/// Of keys that are deleted one after the other, which are there to be deleted.
pub open spec fn del_flags(store: Map<Seq<u8>, Seq<u8>>, keys: Seq<Bytes>) -> Seq<bool> {
    Seq::new(
        keys.len(),
        |i: int|
            store.dom().contains(content(keys[i])) && !contents(keys).take(i).contains(
                content(keys[i]),
            ),
    )
}

/// How many keys a shard counts that deletes keys one after the other.
pub open spec fn del_count(store: Map<Seq<u8>, Seq<u8>>, keys: Seq<Bytes>) -> nat {
    deleted(keys, del_flags(store, keys), keys.len()).len()
}

/// What the first `n` shards count together.
pub open spec fn del_counts(stores: Stores, batches: Seq<Vec<(usize, Bytes)>>, n: nat) -> nat
    decreases n,
{
    if n == 0 {
        0
    } else {
        del_counts(stores, batches, (n - 1) as nat) + del_count(
            stores[n - 1],
            unplaced(batches[n - 1]@),
        )
    }
}

/// A store without keys.
pub open spec fn dropped(
    store: Map<Seq<u8>, Seq<u8>>,
    keys: Seq<Bytes>,
) -> Map<Seq<u8>, Seq<u8>> {
    store.remove_keys(contents(keys).to_set())
}

/// The stores before and after a plan to delete keys was carried out, and how many were counted. A
/// single key is deleted where it belongs.
pub open spec fn del_done(
    router: Router,
    clustered: bool,
    plan: DelPlan,
    before: Stores,
    after: Stores,
    count: nat,
) -> bool {
    &&& before.len() == router.num_shards
    &&& after.len() == router.num_shards
    &&& match plan {
        DelPlan::Nothing => after == before && count == 0,
        DelPlan::One(k) => {
            let home = router.home(content(k), clustered) as int;
            &&& after == before.update(home, before[home].remove(content(k)))
            &&& count == if before[home].dom().contains(content(k)) {
                1nat
            } else {
                0nat
            }
        },
        DelPlan::Single(k) => {
            let own = router.shard_id as int;
            &&& after == before.update(own, dropped(before[own], k@))
            &&& count == del_count(before[own], k@)
        },
        DelPlan::Scattered(s) => {
            &&& forall|i: int|
                0 <= i < router.num_shards ==> #[trigger] after[i] == dropped(
                    before[i],
                    unplaced(s.batches@[i]@),
                )
            &&& count == del_counts(before, s.batches@, router.num_shards as nat)
        },
    }
}

/// The keys, among some, that are there where they belong.
pub open spec fn present(
    router: Router,
    stores: Stores,
    keys: Seq<Seq<u8>>,
    clustered: bool,
) -> Set<Seq<u8>> {
    keys.to_set().filter(|k: Seq<u8>| value_at_home(router, stores, k, clustered) is Some)
}

/// What a shard counts are the distinct keys that it had, among the first.
proof fn lemma_del_count(store: Map<Seq<u8>, Seq<u8>>, keys: Seq<Bytes>, n: nat)
    requires
        n <= keys.len(),
    ensures
        deleted(keys, del_flags(store, keys), n).len() == contents(keys).take(
            n as int,
        ).to_set().filter(|k: Seq<u8>| store.dom().contains(k)).len(),
    decreases n,
{
    let has = |k: Seq<u8>| store.dom().contains(k);
    let names = contents(keys);
    let now = names.take(n as int).to_set().filter(has);
    if n == 0 {
        assert(now =~= Set::<Seq<u8>>::empty());
    } else {
        let m = (n - 1) as nat;
        lemma_del_count(store, keys, m);
        let before = names.take(m as int).to_set().filter(has);
        let key = content(keys[m as int]);
        assert(names[m as int] == key);
        assert forall|k: Seq<u8>| names.take(n as int).contains(k) <==> names.take(
            m as int,
        ).contains(k) || k == key by {
            crate::pubsub::lemma_take_one_more(names, m as int, k);
        }
        assert(del_flags(store, keys)[m as int] == (has(key) && !names.take(m as int).contains(
            key,
        )));
        if has(key) && !names.take(m as int).contains(key) {
            assert(now =~= before.insert(key));
            assert(!before.contains(key));
        } else {
            assert(now =~= before);
        }
    }
}

/// The keys of a shard's share are those that belong to it.
proof fn lemma_shared_keys(
    router: Router,
    keys: Seq<Bytes>,
    clustered: bool,
    shard: usize,
    key: Seq<u8>,
)
    requires
        keys.len() <= usize::MAX,
    ensures
        contents(
            unplaced(share(keys, router.homes(keys, clustered), shard, keys.len())),
        ).contains(key) <==> contents(keys).contains(key) && router.home(key, clustered) == shard,
{
    let targets = router.homes(keys, clustered);
    let part = share(keys, targets, shard, keys.len());
    let names = contents(unplaced(part));
    if names.contains(key) {
        let j = choose|j: int| 0 <= j < names.len() && names[j] == key;
        let x = part[j];
        assert(part.contains(x));
        law_every_item_is_dealt_once(keys, targets, shard, x.0, x.1);
        assert(contents(keys)[x.0 as int] == key);
    }
    if contents(keys).contains(key) && router.home(key, clustered) == shard {
        let i = choose|i: int| 0 <= i < keys.len() && contents(keys)[i] == key;
        law_every_item_is_dealt_once(keys, targets, shard, i as usize, keys[i]);
        let j = choose|j: int| 0 <= j < part.len() && part[j] == (i as usize, keys[i]);
        assert(names[j] == key);
    }
}

/// What the first shards count are the distinct keys that they had.
proof fn lemma_del_counts(
    router: Router,
    keys: Seq<Bytes>,
    clustered: bool,
    batches: Seq<Vec<(usize, Bytes)>>,
    stores: Stores,
    n: nat,
)
    requires
        keys.len() <= usize::MAX,
        n <= router.num_shards,
        forall|s: int|
            0 <= s < router.num_shards ==> (#[trigger] batches[s])@ == share(
                keys,
                router.homes(keys, clustered),
                s as usize,
                keys.len(),
            ),
    ensures
        del_counts(stores, batches, n) == present(
            router,
            stores,
            contents(keys),
            clustered,
        ).filter(|k: Seq<u8>| router.home(k, clustered) < n).len(),
    decreases n,
{
    let all = present(router, stores, contents(keys), clustered);
    let now = all.filter(|k: Seq<u8>| router.home(k, clustered) < n);
    if n == 0 {
        assert(now =~= Set::<Seq<u8>>::empty());
    } else {
        let m = (n - 1) as nat;
        lemma_del_counts(router, keys, clustered, batches, stores, m);
        let before = all.filter(|k: Seq<u8>| router.home(k, clustered) < m);
        let part = unplaced(batches[m as int]@);
        lemma_del_count(stores[m as int], part, part.len());
        let own = contents(part).to_set().filter(
            |k: Seq<u8>| stores[m as int].dom().contains(k),
        );
        assert(contents(part).take(part.len() as int) =~= contents(part));
        assert forall|k: Seq<u8>| now.contains(k) <==> before.contains(k) || own.contains(k) by {
            lemma_shared_keys(router, keys, clustered, m as usize, k);
        }
        assert forall|k: Seq<u8>| before.contains(k) implies !own.contains(k) by {
            lemma_shared_keys(router, keys, clustered, m as usize, k);
        }
        assert(now =~= before + own);
        vstd::set_lib::lemma_set_disjoint_lens(before, own);
    }
}

/// To delete keys counts the distinct ones that were there. Afterwards none of them is, and nothing
/// else changed at any shard. No keys count nothing.
pub proof fn law_del_counts_what_was_there(
    router: Router,
    keys: Seq<Bytes>,
    clustered: bool,
    plan: DelPlan,
    before: Stores,
    after: Stores,
    count: nat,
)
    requires
        router.wf(),
        router.covered(),
        keys.len() <= usize::MAX,
        router.del_planned(keys, clustered, plan),
        del_done(router, clustered, plan, before, after, count),
    ensures
        count == present(router, before, contents(keys), clustered).len(),
        keys.len() == 0 ==> count == 0,
        forall|s: int, key: Seq<u8>|
            0 <= s < router.num_shards ==> #[trigger] lookup(after[s], key) == if contents(
                keys,
            ).contains(key) && router.home(key, clustered) == s {
                None
            } else {
                lookup(before[s], key)
            },
{
    let names = contents(keys);
    let all = present(router, before, names, clustered);
    assert forall|s: int, key: Seq<u8>| 0 <= s < router.num_shards implies #[trigger] lookup(
        after[s],
        key,
    ) == if names.contains(key) && router.home(key, clustered) == s {
        None
    } else {
        lookup(before[s], key)
    } by {
        lemma_home(router, key, clustered);
        match plan {
            DelPlan::Nothing => {},
            DelPlan::One(k) => {
                assert(names[0] == content(k));
                lemma_home(router, content(k), clustered);
            },
            DelPlan::Single(k) => {},
            DelPlan::Scattered(b) => {
                lemma_shared_keys(router, keys, clustered, s as usize, key);
            },
        }
    }
    match plan {
        DelPlan::Nothing => {
            assert(all =~= Set::<Seq<u8>>::empty());
        },
        DelPlan::One(k) => {
            assert(names[0] == content(k));
            if value_at_home(router, before, content(k), clustered) is Some {
                assert(all =~= Set::<Seq<u8>>::empty().insert(content(k)));
            } else {
                assert(all =~= Set::<Seq<u8>>::empty());
            }
        },
        DelPlan::Single(k) => {
            lemma_del_count(before[0], keys, keys.len());
            assert(names.take(keys.len() as int) =~= names);
            assert forall|k: Seq<u8>| all.contains(k) <==> names.contains(k)
                && before[0].dom().contains(k) by {
                lemma_home(router, k, clustered);
            }
            assert(all =~= names.to_set().filter(|k: Seq<u8>| before[0].dom().contains(k)));
        },
        DelPlan::Scattered(s) => {
            lemma_del_counts(
                router,
                keys,
                clustered,
                s.batches@,
                before,
                router.num_shards as nat,
            );
            assert forall|k: Seq<u8>| all.contains(k) implies router.home(k, clustered)
                < router.num_shards by {
                lemma_home(router, k, clustered);
            }
            assert(all.filter(|k: Seq<u8>| router.home(k, clustered) < router.num_shards as nat)
                =~= all);
        },
    }
}

} // verus!
