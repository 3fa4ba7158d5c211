//! What the answers of several shards come to.
use bytes::Bytes;
use vstd::prelude::*;

use crate::lists::contents;
use crate::octets::content;
use crate::pubsub::lemma_take_one_more;
use crate::tables::{CountTable, NameSet};

verus! {

/// Whether bytes come before others in the dictionary.
pub open spec fn precedes(a: Seq<u8>, b: Seq<u8>) -> bool
    decreases a.len(),
{
    if b.len() == 0 {
        false
    } else if a.len() == 0 {
        true
    } else {
        a[0] < b[0] || (a[0] == b[0] && precedes(a.skip(1), b.skip(1)))
    }
}

/// Whether bytes come before others in the dictionary, as seen from their first difference.
proof fn lemma_precedes(a: Seq<u8>, b: Seq<u8>, i: int)
    requires
        0 <= i <= a.len(),
        i <= b.len(),
        forall|k: int| 0 <= k < i ==> a[k] == b[k],
    ensures
        i < a.len() && i < b.len() && a[i] != b[i] ==> precedes(a, b) == (a[i] < b[i]),
        i == a.len() && i < b.len() ==> precedes(a, b),
        i == b.len() ==> !precedes(a, b),
    decreases a.len(),
{
    if i > 0 {
        lemma_precedes(a.skip(1), b.skip(1), i - 1);
    }
}

/// Whether bytes come before others in the dictionary.
pub fn comes_before(a: &[u8], b: &[u8]) -> (r: bool)
    ensures
        r == precedes(a@, b@),
{
    let mut i: usize = 0;
    while i < a.len() && i < b.len()
        invariant
            i <= a.len(),
            i <= b.len(),
            forall|k: int| 0 <= k < i ==> a@[k] == b@[k],
        decreases a.len() - i,
    {
        if a[i] != b[i] {
            proof {
                lemma_precedes(a@, b@, i as int);
            }
            return a[i] < b[i];
        }
        i += 1;
    }
    proof {
        lemma_precedes(a@, b@, i as int);
    }
    i < b.len()
}

/// The order of the dictionary is one.
proof fn lemma_order(a: Seq<u8>, b: Seq<u8>, c: Seq<u8>)
    ensures
        !precedes(a, a),
        precedes(a, b) && precedes(b, c) ==> precedes(a, c),
        precedes(a, b) || precedes(b, a) || a == b,
    decreases a.len(),
{
    if a.len() > 0 {
        lemma_order(a.skip(1), b.skip(1), c.skip(1));
        if b.len() > 0 && a[0] == b[0] && a.skip(1) == b.skip(1) {
            assert(a =~= seq![a[0]] + a.skip(1));
            assert(b =~= seq![b[0]] + b.skip(1));
        }
    } else if b.len() == 0 {
        assert(a =~= b);
    }
}

/// In the order of the dictionary, nothing twice.
pub open spec fn in_order(s: Seq<Seq<u8>>) -> bool {
    forall|i: int, j: int| 0 <= i < j < s.len() ==> precedes(#[trigger] s[i], #[trigger] s[j])
}

/// Puts a name into its place in a list that is in order and does not have it.
fn insert_in_order(list: &mut Vec<Bytes>, name: Bytes)
    requires
        in_order(contents(old(list)@)),
        !contents(old(list)@).contains(content(name)),
    ensures
        in_order(contents(final(list)@)),
        contents(final(list)@).to_set() == contents(old(list)@).to_set().insert(content(name)),
{
    let ghost before = contents(list@);
    let ghost n = content(name);
    let mut p: usize = 0;
    while p < list.len() && comes_before(list[p].as_ref(), name.as_ref())
        invariant
            p <= list.len(),
            before == contents(list@),
            n == content(name),
            forall|k: int| 0 <= k < p ==> precedes(#[trigger] before[k], n),
        decreases list.len() - p,
    {
        assert(before[p as int] == content(list@[p as int]));
        p += 1;
    }
    proof {
        if p < list@.len() {
            assert(before[p as int] == content(list@[p as int]));
            assert(before.contains(before[p as int]));
        }
    }
    list.insert(p, name);
    let ghost after = contents(list@);
    proof {
        assert(after =~= before.insert(p as int, n));
        assert forall|i: int, j: int| 0 <= i < j < after.len() implies precedes(
            #[trigger] after[i],
            #[trigger] after[j],
        ) by {
            if i < p && j > p {
                lemma_order(before[i], n, before[j - 1]);
                assert(precedes(before[i], before[j - 1]));
            } else if i == p {
                if j - 1 > p {
                    assert(precedes(before[p as int], before[j - 1]));
                    lemma_order(n, before[p as int], before[j - 1]);
                }
                lemma_order(n, before[p as int], n);
                lemma_order(before[p as int], n, n);
            } else if j == p {
                assert(precedes(before[i], n));
            } else if i > p {
                assert(precedes(before[i - 1], before[j - 1]));
            } else {
                assert(precedes(before[i], before[j]));
            }
        }
        assert forall|x: Seq<u8>| after.contains(x) <==> before.contains(x) || x == n by {
            if before.contains(x) {
                let k = choose|k: int| 0 <= k < before.len() && before[k] == x;
                if k < p {
                    assert(after[k] == x);
                } else {
                    assert(after[k + 1] == x);
                }
            }
            assert(after[p as int] == n);
            if after.contains(x) && x != n {
                let k = choose|k: int| 0 <= k < after.len() && after[k] == x;
                if k < p {
                    assert(before[k] == x);
                } else {
                    assert(before[k - 1] == x);
                }
            }
        }
        assert(after.to_set() =~= before.to_set().insert(n));
    }
}

/// Puts names that differ into the order of the dictionary.
fn sort_names(names: Vec<Bytes>) -> (r: Vec<Bytes>)
    requires
        contents(names@).no_duplicates(),
    ensures
        in_order(contents(r@)),
        contents(r@).to_set() == contents(names@).to_set(),
{
    let ghost all = contents(names@);
    let mut r: Vec<Bytes> = Vec::new();
    let mut i: usize = 0;
    assert(contents(r@).to_set() =~= all.take(0).to_set());
    while i < names.len()
        invariant
            i <= names.len(),
            all == contents(names@),
            all.no_duplicates(),
            in_order(contents(r@)),
            contents(r@).to_set() == all.take(i as int).to_set(),
        decreases names.len() - i,
    {
        proof {
            assert(all[i as int] == content(names@[i as int]));
            if contents(r@).contains(all[i as int]) {
                assert(contents(r@).to_set().contains(all[i as int]));
                assert(all.take(i as int).contains(all[i as int]));
            }
            assert forall|x: Seq<u8>| #[trigger] all.take(i + 1).contains(x) <==> all.take(i as int).contains(x)
                || x == all[i as int] by {
                lemma_take_one_more(all, i as int, x);
            }
            assert(all.take(i + 1).to_set() =~= all.take(i as int).to_set().insert(all[i as int]));
        }
        insert_in_order(&mut r, names[i].clone());
        i += 1;
    }
    assert(all.take(i as int) == all);
    r
}

/// The names in any of several lists.
pub open spec fn all_names(lists: Seq<Vec<Bytes>>) -> Set<Seq<u8>> {
    Set::new(
        |n: Seq<u8>|
            exists|k: int| 0 <= k < lists.len() && contents((#[trigger] lists[k])@).contains(n),
    )
}

/// The names in any of several lists, each once, in the order of the dictionary.
pub fn merge_names(lists: &Vec<Vec<Bytes>>) -> (r: Vec<Bytes>)
    ensures
        in_order(contents(r@)),
        contents(r@).to_set() == all_names(lists@),
{
    let mut set = NameSet::new();
    let mut k: usize = 0;
    assert(set@ =~= all_names(lists@.take(0)));
    while k < lists.len()
        invariant
            k <= lists.len(),
            set@ == all_names(lists@.take(k as int)),
        decreases lists.len() - k,
    {
        let list: &Vec<Bytes> = &lists[k];
        let ghost before = set@;
        let ghost names = contents(list@);
        let mut i: usize = 0;
        assert(set@ =~= before.union(names.take(0).to_set()));
        while i < list.len()
            invariant
                i <= list.len(),
                names == contents(list@),
                set@ == before.union(names.take(i as int).to_set()),
            decreases list.len() - i,
        {
            set.insert(list[i].clone());
            proof {
                assert(names[i as int] == content(list@[i as int]));
                assert forall|x: Seq<u8>| #[trigger] names.take(i + 1).contains(x) <==> names.take(
                    i as int,
                ).contains(x) || x == names[i as int] by {
                    lemma_take_one_more(names, i as int, x);
                }
                assert(set@ =~= before.union(names.take(i + 1).to_set()));
            }
            i += 1;
        }
        proof {
            assert(names.take(i as int) == names);
            let longer = lists@.take(k + 1);
            let shorter = lists@.take(k as int);
            assert forall|n: Seq<u8>| set@.contains(n) == all_names(longer).contains(n) by {
                if all_names(shorter).contains(n) {
                    let j = choose|j: int|
                        0 <= j < shorter.len() && contents((#[trigger] shorter[j])@).contains(n);
                    assert(longer[j] == shorter[j]);
                }
                if names.contains(n) {
                    assert(longer[k as int] == *list);
                }
                if all_names(longer).contains(n) {
                    let j = choose|j: int|
                        0 <= j < longer.len() && contents((#[trigger] longer[j])@).contains(n);
                    if j < k {
                        assert(shorter[j] == longer[j]);
                    }
                }
            }
            assert(set@ =~= all_names(longer));
        }
        k += 1;
    }
    assert(lists@.take(k as int) == lists@);
    sort_names(set.to_vec())
}

/// Counts added up; they wrap.
pub open spec fn sum(counts: Seq<usize>) -> usize
    decreases counts.len(),
{
    if counts.len() == 0 {
        0
    } else {
        sum(counts.drop_last()).wrapping_add(counts.last())
    }
}

/// Counts added up.
pub fn sum_counts(counts: &Vec<usize>) -> (r: usize)
    ensures
        r == sum(counts@),
{
    let mut total: usize = 0;
    let mut i: usize = 0;
    assert(counts@.take(0).len() == 0);
    while i < counts.len()
        invariant
            i <= counts.len(),
            total == sum(counts@.take(i as int)),
        decreases counts.len() - i,
    {
        proof {
            assert(counts@.take(i + 1).drop_last() == counts@.take(i as int));
        }
        total = total.wrapping_add(counts[i]);
        i += 1;
    }
    assert(counts@.take(i as int) == counts@);
    total
}

/// A table with counts put in, one after the other.
pub open spec fn put_in(m: Map<Seq<u8>, usize>, counts: Seq<(Bytes, usize)>) -> Map<Seq<u8>, usize>
    decreases counts.len(),
{
    if counts.len() == 0 {
        m
    } else {
        put_in(m, counts.drop_last()).insert(content(counts.last().0), counts.last().1)
    }
}

/// A table with counts added, one after the other; a name that is not there counts from zero.
pub open spec fn added(m: Map<Seq<u8>, usize>, counts: Seq<(Bytes, usize)>) -> Map<Seq<u8>, usize>
    decreases counts.len(),
{
    if counts.len() == 0 {
        m
    } else {
        let before = added(m, counts.drop_last());
        let name = content(counts.last().0);
        before.insert(name, count_in(before, name).wrapping_add(counts.last().1))
    }
}

/// The count of a name: zero where it is not there.
pub open spec fn count_in(m: Map<Seq<u8>, usize>, name: Seq<u8>) -> usize {
    if m.dom().contains(name) {
        m[name]
    } else {
        0
    }
}

/// A table with the counts of several lists added.
pub open spec fn added_all(m: Map<Seq<u8>, usize>, lists: Seq<Vec<(Bytes, usize)>>) -> Map<
    Seq<u8>,
    usize,
>
    decreases lists.len(),
{
    if lists.len() == 0 {
        m
    } else {
        added(added_all(m, lists.drop_last()), lists.last()@)
    }
}

/// A table with the counts of several lists put in.
pub open spec fn put_in_all(m: Map<Seq<u8>, usize>, lists: Seq<Vec<(Bytes, usize)>>) -> Map<
    Seq<u8>,
    usize,
>
    decreases lists.len(),
{
    if lists.len() == 0 {
        m
    } else {
        put_in(put_in_all(m, lists.drop_last()), lists.last()@)
    }
}

/// Puts counts into a table.
fn put_counts(table: &mut CountTable, counts: &Vec<(Bytes, usize)>)
    ensures
        final(table)@ == put_in(old(table)@, counts@),
{
    let mut i: usize = 0;
    assert(counts@.take(0).len() == 0);
    while i < counts.len()
        invariant
            i <= counts.len(),
            table@ == put_in(old(table)@, counts@.take(i as int)),
        decreases counts.len() - i,
    {
        proof {
            assert(counts@.take(i + 1).drop_last() == counts@.take(i as int));
        }
        table.insert(counts[i].0.clone(), counts[i].1);
        i += 1;
    }
    assert(counts@.take(i as int) == counts@);
}

/// Adds counts to those in a table.
fn add_counts(table: &mut CountTable, counts: &Vec<(Bytes, usize)>)
    ensures
        final(table)@ == added(old(table)@, counts@),
{
    let mut i: usize = 0;
    assert(counts@.take(0).len() == 0);
    while i < counts.len()
        invariant
            i <= counts.len(),
            table@ == added(old(table)@, counts@.take(i as int)),
        decreases counts.len() - i,
    {
        proof {
            assert(counts@.take(i + 1).drop_last() == counts@.take(i as int));
        }
        let had: usize = match table.get(counts[i].0.as_ref()) {
            Some(n) => *n,
            None => 0,
        };
        table.insert(counts[i].0.clone(), had.wrapping_add(counts[i].1));
        i += 1;
    }
    assert(counts@.take(i as int) == counts@);
}

/// The counts of names, in the order of the names.
pub open spec fn looked_up(
    r: Seq<(Bytes, usize)>,
    names: Seq<Bytes>,
    m: Map<Seq<u8>, usize>,
) -> bool {
    &&& r.len() == names.len()
    &&& forall|i: int|
        0 <= i < r.len() ==> content((#[trigger] r[i]).0) == content(names[i]) && r[i].1
            == count_in(m, content(names[i]))
}

/// The counts of names, in the order of the names.
fn look_up(table: &CountTable, names: &Vec<Bytes>) -> (r: Vec<(Bytes, usize)>)
    ensures
        looked_up(r@, names@, table@),
{
    let mut r: Vec<(Bytes, usize)> = Vec::new();
    let mut i: usize = 0;
    while i < names.len()
        invariant
            i <= names.len(),
            r@.len() == i,
            forall|k: int|
                0 <= k < i ==> content((#[trigger] r@[k]).0) == content(names@[k]) && r@[k].1
                    == count_in(table@, content(names@[k])),
        decreases names.len() - i,
    {
        let count: usize = match table.get(names[i].as_ref()) {
            Some(n) => *n,
            None => 0,
        };
        r.push((names[i].clone(), count));
        i += 1;
    }
    r
}

/// The subscribers of channels at all shards: those of this shard, and what the others answered,
/// added up.
pub fn merge_numsub(
    channels: &Vec<Bytes>,
    local: &Vec<(Bytes, usize)>,
    remote: &Vec<Vec<(Bytes, usize)>>,
) -> (r: Vec<(Bytes, usize)>)
    ensures
        looked_up(r@, channels@, added_all(put_in(Map::empty(), local@), remote@)),
{
    let mut table = CountTable::new();
    assert(table@ =~= Map::<Seq<u8>, usize>::empty());
    put_counts(&mut table, local);
    let ghost start = table@;
    let mut k: usize = 0;
    assert(remote@.take(0).len() == 0);
    while k < remote.len()
        invariant
            k <= remote.len(),
            table@ == added_all(start, remote@.take(k as int)),
        decreases remote.len() - k,
    {
        proof {
            assert(remote@.take(k + 1).drop_last() == remote@.take(k as int));
        }
        add_counts(&mut table, &remote[k]);
        k += 1;
    }
    assert(remote@.take(k as int) == remote@);
    look_up(&table, channels)
}

/// The subscribers of shard channels: those of this shard, and those that the other shards answered
/// for.
pub fn merge_shard_numsub(
    channels: &Vec<Bytes>,
    local: &Vec<(Bytes, usize)>,
    remote: &Vec<Vec<(Bytes, usize)>>,
) -> (r: Vec<(Bytes, usize)>)
    ensures
        looked_up(r@, channels@, put_in_all(put_in(Map::empty(), local@), remote@)),
{
    let mut table = CountTable::new();
    assert(table@ =~= Map::<Seq<u8>, usize>::empty());
    put_counts(&mut table, local);
    let ghost start = table@;
    let mut k: usize = 0;
    assert(remote@.take(0).len() == 0);
    while k < remote.len()
        invariant
            k <= remote.len(),
            table@ == put_in_all(start, remote@.take(k as int)),
        decreases remote.len() - k,
    {
        proof {
            assert(remote@.take(k + 1).drop_last() == remote@.take(k as int));
        }
        put_counts(&mut table, &remote[k]);
        k += 1;
    }
    assert(remote@.take(k as int) == remote@);
    look_up(&table, channels)
}

/// The order of names is that of the dictionary: at the first byte in which two names differ the one
/// with the smaller byte comes first, and a name comes before those that begin with it. Of two names
/// that differ, one comes first.
pub proof fn law_dictionary_order(a: Seq<u8>, b: Seq<u8>, p: Seq<u8>, x: u8, y: u8)
    ensures
        x < y ==> precedes(p + seq![x] + a, p + seq![y] + b) && !precedes(
            p + seq![y] + b,
            p + seq![x] + a,
        ),
        precedes(p, p + seq![x] + a),
        !precedes(p + seq![x] + a, p),
        !precedes(p, p),
        a == b || precedes(a, b) || precedes(b, a),
        !(precedes(a, b) && precedes(b, a)),
    decreases a.len(),
{
    let l = p + seq![x] + a;
    let r = p + seq![y] + b;
    let n = p.len() as int;
    assert(l[n] == x && r[n] == y);
    lemma_precedes(l, r, n);
    lemma_precedes(r, l, n);
    lemma_precedes(p, l, n);
    lemma_precedes(l, p, n);
    lemma_precedes(p, p, n);
    if a.len() > 0 && b.len() > 0 && a[0] == b[0] {
        law_dictionary_order(a.skip(1), b.skip(1), p, x, y);
        if a.skip(1) == b.skip(1) {
            assert(a =~= b) by {
                assert forall|i: int| 0 <= i < a.len() implies a[i] == b[i] by {
                    if i > 0 {
                        assert(a.skip(1)[i - 1] == b.skip(1)[i - 1]);
                    }
                }
            }
        }
    } else if a.len() == 0 && b.len() == 0 {
        assert(a =~= b);
    }
}

/// The total of counts, where it fits, is their sum: one count more adds that count.
pub proof fn law_counts_add_up(counts: Seq<usize>, more: usize)
    requires
        sum(counts) + more <= usize::MAX,
    ensures
        sum(Seq::empty()) == 0,
        sum(counts.push(more)) == sum(counts) + more,
{
    assert(counts.push(more).drop_last() =~= counts);
}

/// The counts of a name from several shards are added up, and those of other names are left alone.
pub proof fn law_counts_of_names_add_up(
    m: Map<Seq<u8>, usize>,
    counts: Seq<(Bytes, usize)>,
    more: (Bytes, usize),
    name: Seq<u8>,
)
    requires
        count_in(added(m, counts), content(more.0)) + more.1 <= usize::MAX,
    ensures
        count_in(added(m, counts.push(more)), name) == if name == content(more.0) {
            (count_in(added(m, counts), name) + more.1) as usize
        } else {
            count_in(added(m, counts), name)
        },
        count_in(put_in(m, counts.push(more)), name) == if name == content(more.0) {
            more.1
        } else {
            count_in(put_in(m, counts), name)
        },
        added(m, Seq::empty()) == m,
        put_in(m, Seq::empty()) == m,
{
    assert(counts.push(more).drop_last() =~= counts);
}

} // verus!
