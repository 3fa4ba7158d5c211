//! Work that is spread over the shards and gathered again.
use bytes::Bytes;
use vstd::prelude::*;

use crate::lists::content_opt;
use crate::wire::{
    bulk, count_line, null_bulk, write_resp_array_header, write_resp_bulk, write_resp_null,
};

verus! {

/// A sequence with values written into it, one after the other.
pub open spec fn written<T>(
    slots: Seq<Option<T>>,
    writes: Seq<(usize, Option<T>)>,
) -> Seq<Option<T>>
    decreases writes.len(),
{
    if writes.len() == 0 {
        slots
    } else {
        let (i, v) = writes.last();
        written(slots, writes.drop_last()).update(i as int, v)
    }
}

/// Writes values into their places.
pub(crate) fn write_all<T>(slots: &mut Vec<Option<T>>, writes: Vec<(usize, Option<T>)>)
    requires
        forall|j: int| 0 <= j < writes@.len() ==> (#[trigger] writes@[j]).0 < old(slots)@.len(),
    ensures
        final(slots)@ == written(old(slots)@, writes@),
        final(slots)@.len() == old(slots)@.len(),
{
    let ghost all = writes@;
    assert(all.take(0).len() == 0);
    for w in it: writes
        invariant
            it.seq() == all,
            slots@ == written(old(slots)@, all.take(it.index() as int)),
            slots@.len() == old(slots)@.len(),
            forall|j: int| 0 <= j < all.len() ==> (#[trigger] all[j]).0 < old(slots)@.len(),
    {
        proof {
            assert(all.take(it.index() + 1).drop_last() == all.take(it.index() as int));
        }
        let (i, v): (usize, Option<T>) = w;
        slots.set(i, v);
    }
    assert(all.take(all.len() as int) == all);
}

/// The share of a shard in the first `n` items: those that are meant for it, each with its place, in
/// order.
pub open spec fn share<T>(
    items: Seq<T>,
    targets: Seq<usize>,
    shard: usize,
    n: nat,
) -> Seq<(usize, T)>
    decreases n,
{
    if n == 0 {
        Seq::empty()
    } else {
        let before = share(items, targets, shard, (n - 1) as nat);
        if targets[n - 1] == shard {
            before.push(((n - 1) as usize, items[n - 1]))
        } else {
            before
        }
    }
}

/// Deals items out to the shards that they are meant for.
pub fn deal<T>(items: Vec<T>, targets: &Vec<usize>, shards: usize) -> (r: Vec<Vec<(usize, T)>>)
    requires
        targets@.len() == items@.len(),
        forall|i: int| 0 <= i < targets@.len() ==> #[trigger] targets@[i] < shards,
    ensures
        r@.len() == shards,
        forall|s: int|
            0 <= s < shards ==> (#[trigger] r@[s])@ == share(
                items@,
                targets@,
                s as usize,
                items@.len(),
            ),
{
    let mut batches: Vec<Vec<(usize, T)>> = Vec::new();
    let mut s: usize = 0;
    while s < shards
        invariant
            s <= shards,
            batches@.len() == s,
            forall|k: int| 0 <= k < s ==> (#[trigger] batches@[k])@.len() == 0,
        decreases shards - s,
    {
        batches.push(Vec::new());
        s += 1;
    }
    let ghost all = items@;
    let total: usize = items.len();
    let mut i: usize = 0;
    assert forall|k: int| 0 <= k < shards implies (#[trigger] batches@[k])@ == share(
        all,
        targets@,
        k as usize,
        0,
    ) by {
        assert(batches@[k]@ =~= Seq::empty());
    }
    for x in it: items
        invariant
            it.seq() == all,
            i == it.index(),
            total == all.len(),
            i <= total,
            targets@.len() == all.len(),
            forall|k: int| 0 <= k < targets@.len() ==> #[trigger] targets@[k] < shards,
            batches@.len() == shards,
            forall|k: int|
                0 <= k < shards ==> (#[trigger] batches@[k])@ == share(
                    all,
                    targets@,
                    k as usize,
                    i as nat,
                ),
    {
        let t: usize = targets[i];
        let ghost before = batches@;
        batches[t].push((i, x));
        proof {
            assert forall|k: int| 0 <= k < shards implies (#[trigger] batches@[k])@ == share(
                all,
                targets@,
                k as usize,
                (i + 1) as nat,
            ) by {
                assert(before[k]@ == share(all, targets@, k as usize, i as nat));
            }
        }
        i += 1;
    }
    batches
}

/// What is in a share.
proof fn lemma_share<T>(items: Seq<T>, targets: Seq<usize>, shard: usize, n: nat)
    requires
        n <= items.len() <= usize::MAX,
        targets.len() == items.len(),
    ensures
        forall|j: int|
            0 <= j < share(items, targets, shard, n).len() ==> {
                let (i, x) = #[trigger] share(items, targets, shard, n)[j];
                i < n && targets[i as int] == shard && x == items[i as int]
            },
        forall|i: int|
            0 <= i < n && #[trigger] targets[i] == shard ==> share(
                items,
                targets,
                shard,
                n,
            ).contains((i as usize, items[i])),
        share(items, targets, shard, n).no_duplicates(),
    decreases n,
{
    if n > 0 {
        lemma_share(items, targets, shard, (n - 1) as nat);
        let before = share(items, targets, shard, (n - 1) as nat);
        let now = share(items, targets, shard, n);
        assert forall|i: int| 0 <= i < n && #[trigger] targets[i] == shard implies now.contains(
            (i as usize, items[i]),
        ) by {
            if i < n - 1 {
                assert(before.contains((i as usize, items[i])));
                let j = choose|j: int| 0 <= j < before.len() && before[j] == (i as usize, items[i]);
                assert(now[j] == (i as usize, items[i]));
            } else {
                assert(now.last() == ((n - 1) as usize, items[n - 1]));
            }
        }
    }
}

/// To deal items out loses none and doubles none: an item stands, with its place, in the share of
/// the shard that it is meant for, once, and in no other.
pub proof fn law_every_item_is_dealt_once<T>(
    items: Seq<T>,
    targets: Seq<usize>,
    shard: usize,
    place: usize,
    item: T,
)
    requires
        items.len() <= usize::MAX,
        targets.len() == items.len(),
    ensures
        share(items, targets, shard, items.len()).no_duplicates(),
        share(items, targets, shard, items.len()).contains((place, item)) <==> (place < items.len()
            && targets[place as int] == shard && item == items[place as int]),
{
    lemma_share(items, targets, shard, items.len());
    let s = share(items, targets, shard, items.len());
    if s.contains((place, item)) {
        let j = choose|j: int| 0 <= j < s.len() && s[j] == (place, item);
        assert(s[j].0 == place);
    }
}

/// How many shards, but for one, have a share, among the first `n`.
pub open spec fn involved<T>(batches: Seq<Vec<(usize, T)>>, own: usize, n: nat) -> nat
    decreases n,
{
    if n == 0 {
        0
    } else {
        involved(batches, own, (n - 1) as nat) + if n - 1 != own && batches[n - 1]@.len() > 0 {
            1nat
        } else {
            0nat
        }
    }
}

/// How many shards, but for one, have a share.
pub fn count_involved<T>(batches: &Vec<Vec<(usize, T)>>, own: usize) -> (r: usize)
    ensures
        r == involved(batches@, own, batches@.len()),
        r <= batches@.len(),
{
    let mut n: usize = 0;
    let mut s: usize = 0;
    while s < batches.len()
        invariant
            s <= batches.len(),
            n <= s,
            n == involved(batches@, own, s as nat),
        decreases batches.len() - s,
    {
        if s != own && batches[s].len() > 0 {
            n += 1;
        }
        s += 1;
    }
    n
}

/// Items without their places.
pub open spec fn unplaced<T>(s: Seq<(usize, T)>) -> Seq<T> {
    s.map_values(|x: (usize, T)| x.1)
}

/// Items without their places.
pub fn drop_places<T>(items: Vec<(usize, T)>) -> (r: Vec<T>)
    ensures
        r@ == unplaced(items@),
{
    let ghost all = items@;
    let mut r: Vec<T> = Vec::new();
    for x in it: items
        invariant
            it.seq() == all,
            r@.len() == it.index(),
            forall|j: int| 0 <= j < r@.len() ==> r@[j] == all[j].1,
    {
        r.push(x.1);
    }
    assert(r@ =~= unplaced(all));
    r
}

/// The keys, among the first `n`, that were deleted.
pub open spec fn deleted(keys: Seq<Bytes>, flags: Seq<bool>, n: nat) -> Seq<Bytes>
    decreases n,
{
    if n == 0 {
        Seq::empty()
    } else if flags[n - 1] {
        deleted(keys, flags, (n - 1) as nat).push(keys[n - 1])
    } else {
        deleted(keys, flags, (n - 1) as nat)
    }
}

/// The keys that were deleted, when it is known of each; their number is what is counted.
pub fn keep_deleted(keys: Vec<Bytes>, flags: &Vec<bool>) -> (r: Vec<Bytes>)
    requires
        flags@.len() == keys@.len(),
    ensures
        r@ == deleted(keys@, flags@, keys@.len()),
{
    let ghost all = keys@;
    let mut r: Vec<Bytes> = Vec::new();
    let total: usize = keys.len();
    let mut i: usize = 0;
    for k in it: keys
        invariant
            it.seq() == all,
            i == it.index(),
            total == all.len(),
            i <= total,
            flags@.len() == all.len(),
            r@ == deleted(all, flags@, i as nat),
    {
        if flags[i] {
            r.push(k);
        }
        i += 1;
    }
    r
}

/// A number of empty places.
pub fn empty_places<T>(n: usize) -> (r: Vec<Option<T>>)
    ensures
        r@ == Seq::new(n as nat, |i: int| None::<T>),
{
    let mut r: Vec<Option<T>> = Vec::new();
    let mut i: usize = 0;
    while i < n
        invariant
            i <= n,
            r@.len() == i,
            forall|j: int| 0 <= j < i ==> r@[j] is None,
        decreases n - i,
    {
        r.push(None);
        i += 1;
    }
    assert(r@ =~= Seq::new(n as nat, |i: int| None::<T>));
    r
}

/// Answers that are on their way from the shards: those that came, each in its place, and how many
/// shards have not answered.
pub struct InFlight<T> {
    pub results: Vec<Option<T>>,
    pub awaited: usize,
}

impl<T> InFlight<T> {
    /// Nothing came yet.
    pub fn new(total: usize, awaited: usize) -> (r: Self)
        ensures
            r.results@ == Seq::new(total as nat, |i: int| None::<T>),
            r.awaited == awaited,
    {
        InFlight { results: empty_places(total), awaited }
    }

    /// Takes in answers of the own shard.
    pub fn fill(&mut self, answers: Vec<(usize, Option<T>)>)
        requires
            forall|j: int|
                0 <= j < answers@.len() ==> (#[trigger] answers@[j]).0 < old(self).results@.len(),
        ensures
            final(self).results@ == written(old(self).results@, answers@),
            final(self).results@.len() == old(self).results@.len(),
            final(self).awaited == old(self).awaited,
    {
        write_all(&mut self.results, answers);
    }

    /// Takes in the answers of another shard, or that it is lost.
    pub fn settle(&mut self, answers: Option<Vec<(usize, Option<T>)>>)
        requires
            answers matches Some(a) ==> forall|j: int|
                0 <= j < a@.len() ==> (#[trigger] a@[j]).0 < old(self).results@.len(),
        ensures
            final(self).results@ == match answers {
                Some(a) => written(old(self).results@, a@),
                None => old(self).results@,
            },
            final(self).results@.len() == old(self).results@.len(),
            final(self).awaited == if old(self).awaited > 0 {
                old(self).awaited - 1
            } else {
                0
            },
    {
        match answers {
            Some(a) => write_all(&mut self.results, a),
            None => {},
        }
        if self.awaited > 0 {
            self.awaited = self.awaited - 1;
        }
    }

    /// Whether every shard has answered or is lost.
    pub fn is_complete(&self) -> (r: bool)
        ensures
            r == (self.awaited == 0),
    {
        self.awaited == 0
    }
}

/// Answers to what was dealt out: the values that a function gives the items.
pub open spec fn answered<T, V>(s: Seq<(usize, T)>, f: spec_fn(T) -> Option<V>) -> Seq<
    (usize, Option<V>),
> {
    s.map_values(|x: (usize, T)| (x.0, f(x.1)))
}

/// The shares of several shards, one behind the other, as answers.
pub open spec fn all_answers<T, V>(
    items: Seq<T>,
    targets: Seq<usize>,
    order: Seq<usize>,
    f: spec_fn(T) -> Option<V>,
) -> Seq<(usize, Option<V>)>
    decreases order.len(),
{
    if order.len() == 0 {
        Seq::empty()
    } else {
        all_answers(items, targets, order.drop_last(), f) + answered(
            share(items, targets, order.last(), items.len()),
            f,
        )
    }
}

/// Writes leave the number of places as it is.
proof fn lemma_written_len<V>(slots: Seq<Option<V>>, writes: Seq<(usize, Option<V>)>)
    requires
        forall|j: int| 0 <= j < writes.len() ==> (#[trigger] writes[j]).0 < slots.len(),
    ensures
        written(slots, writes).len() == slots.len(),
    decreases writes.len(),
{
    if writes.len() > 0 {
        lemma_written_len(slots, writes.drop_last());
    }
}

/// What stands in a place after writes that agree on it.
proof fn lemma_written<V>(
    slots: Seq<Option<V>>,
    writes: Seq<(usize, Option<V>)>,
    i: int,
    v: Option<V>,
)
    requires
        0 <= i < slots.len(),
        forall|j: int| 0 <= j < writes.len() ==> (#[trigger] writes[j]).0 < slots.len(),
        forall|j: int| 0 <= j < writes.len() && (#[trigger] writes[j]).0 == i ==> writes[j].1 == v,
    ensures
        (exists|j: int| 0 <= j < writes.len() && (#[trigger] writes[j]).0 == i) ==> written(
            slots,
            writes,
        )[i] == v,
        !(exists|j: int| 0 <= j < writes.len() && (#[trigger] writes[j]).0 == i) ==> written(
            slots,
            writes,
        )[i] == slots[i],
    decreases writes.len(),
{
    if writes.len() > 0 {
        let shorter = writes.drop_last();
        lemma_written_len(slots, shorter);
        lemma_written(slots, shorter, i, v);
        if writes.last().0 != i {
            if exists|j: int| 0 <= j < writes.len() && (#[trigger] writes[j]).0 == i {
                let j = choose|j: int| 0 <= j < writes.len() && (#[trigger] writes[j]).0 == i;
                assert(shorter[j].0 == i);
            }
            if exists|j: int| 0 <= j < shorter.len() && (#[trigger] shorter[j]).0 == i {
                let j = choose|j: int| 0 <= j < shorter.len() && (#[trigger] shorter[j]).0 == i;
                assert(writes[j].0 == i);
            }
        } else {
            assert(writes[writes.len() - 1].0 == i);
        }
    }
}

/// What all answers together say.
proof fn lemma_all_answers<T, V>(
    items: Seq<T>,
    targets: Seq<usize>,
    order: Seq<usize>,
    f: spec_fn(T) -> Option<V>,
)
    requires
        items.len() <= usize::MAX,
        targets.len() == items.len(),
    ensures
        forall|j: int|
            0 <= j < all_answers(items, targets, order, f).len() ==> {
                let (i, v) = #[trigger] all_answers(items, targets, order, f)[j];
                i < items.len() && v == f(items[i as int])
            },
        forall|i: int|
            0 <= i < items.len() && order.contains(#[trigger] targets[i]) ==> exists|j: int|
                0 <= j < all_answers(items, targets, order, f).len() && (#[trigger] all_answers(
                    items,
                    targets,
                    order,
                    f,
                )[j]).0 == i,
    decreases order.len(),
{
    if order.len() > 0 {
        let before = all_answers(items, targets, order.drop_last(), f);
        let dealt = share(items, targets, order.last(), items.len());
        let last = answered(dealt, f);
        let all = before + last;
        lemma_all_answers(items, targets, order.drop_last(), f);
        lemma_share(items, targets, order.last(), items.len());
        assert forall|j: int| 0 <= j < all.len() implies {
            let (i, v) = #[trigger] all[j];
            i < items.len() && v == f(items[i as int])
        } by {
            if j < before.len() {
                assert(all[j] == before[j]);
            } else {
                assert(all[j] == last[j - before.len()]);
                assert(last[j - before.len()].0 == dealt[j - before.len()].0);
            }
        }
        assert forall|i: int|
            0 <= i < items.len() && order.contains(#[trigger] targets[i]) implies exists|j: int|
            0 <= j < all.len() && (#[trigger] all[j]).0 == i by {
            if targets[i] == order.last() {
                assert(dealt.contains((i as usize, items[i])));
                let k = choose|k: int| 0 <= k < dealt.len() && dealt[k] == (i as usize, items[i]);
                assert(last[k].0 == i);
                assert(all[before.len() + k] == last[k]);
            } else {
                let p = choose|p: int| 0 <= p < order.len() && order[p] == targets[i];
                assert(order.drop_last()[p] == targets[i]);
                assert(order.drop_last().contains(targets[i]));
                let j = choose|j: int| 0 <= j < before.len() && (#[trigger] before[j]).0 == i;
                assert(all[j] == before[j]);
            }
        }
    }
}

/// What is dealt out comes back in its place: when every shard that has a share answers it, in
/// whatever order, each place holds the answer for the item that stood there.
pub proof fn law_answers_come_back_in_place<T, V>(
    items: Seq<T>,
    targets: Seq<usize>,
    order: Seq<usize>,
    f: spec_fn(T) -> Option<V>,
)
    requires
        items.len() <= usize::MAX,
        targets.len() == items.len(),
        forall|i: int| 0 <= i < targets.len() ==> order.contains(#[trigger] targets[i]),
    ensures
        written(
            Seq::new(items.len(), |i: int| None::<V>),
            all_answers(items, targets, order, f),
        ) == Seq::new(items.len(), |i: int| f(items[i])),
{
    let none = Seq::new(items.len(), |i: int| None::<V>);
    let w = all_answers(items, targets, order, f);
    let want = Seq::new(items.len(), |i: int| f(items[i]));
    lemma_all_answers(items, targets, order, f);
    assert forall|j: int| 0 <= j < w.len() implies (#[trigger] w[j]).0 < none.len() by {}
    lemma_written_len(none, w);
    assert forall|i: int| 0 <= i < items.len() implies written(none, w)[i] == want[i] by {
        assert(order.contains(targets[i]));
        assert forall|j: int| 0 <= j < w.len() && (#[trigger] w[j]).0 == i implies w[j].1 == f(
            items[i],
        ) by {}
        lemma_written(none, w, i, f(items[i]));
    }
    assert(written(none, w) =~= want);
}

/// Values in a reply: each a bulk string, or the one that stands for nothing.
pub open spec fn value_bulks(values: Seq<Option<Seq<u8>>>) -> Seq<u8>
    decreases values.len(),
{
    if values.len() == 0 {
        Seq::empty()
    } else {
        value_bulks(values.drop_last()) + match values.last() {
            Some(v) => bulk(v),
            None => null_bulk(),
        }
    }
}

/// The reply to a question for several values.
pub open spec fn values_reply(values: Seq<Option<Seq<u8>>>) -> Seq<u8> {
    count_line(42, values.len()) + value_bulks(values)
}

/// The bytes of values that may be there.
pub open spec fn value_contents(values: Seq<Option<Bytes>>) -> Seq<Option<Seq<u8>>> {
    values.map_values(|v: Option<Bytes>| content_opt(v))
}

/// Appends the reply to a question for several values.
pub fn write_values(values: &Vec<Option<Bytes>>, out: &mut Vec<u8>)
    ensures
        final(out)@ == old(out)@ + values_reply(value_contents(values@)),
{
    write_resp_array_header(out, values.len());
    let ghost head = out@;
    let ghost all = value_contents(values@);
    let mut i: usize = 0;
    assert(out@ =~= head + value_bulks(all.take(0)));
    while i < values.len()
        invariant
            i <= values.len(),
            all == value_contents(values@),
            out@ == head + value_bulks(all.take(i as int)),
        decreases values.len() - i,
    {
        let ghost before = out@;
        assert(all[i as int] == content_opt(values@[i as int]));
        match &values[i] {
            Some(v) => write_resp_bulk(out, v.as_ref()),
            None => write_resp_null(out),
        }
        proof {
            assert(all.take(i + 1).drop_last() == all.take(i as int));
            assert(out@ =~= head + value_bulks(all.take(i + 1)));
        }
        i += 1;
    }
    assert(all.take(i as int) == all);
    assert(out@ =~= old(out)@ + values_reply(all));
}

} // verus!
