//! The hits of a search at several shards, put in order and cut to a page.
use vstd::prelude::*;

use crate::lists::texts;
use crate::merging::{sum, sum_counts};
use crate::search::{SearchOptions, SearchOptionsView};

verus! {

/// Whether a hit comes before another: by its rank, upwards or downwards, and among equal ranks by
/// its place.
pub open spec fn ahead(ranks: Seq<i64>, ascending: bool, a: usize, b: usize) -> bool {
    let x = ranks[a as int];
    let y = ranks[b as int];
    (if ascending {
        x < y
    } else {
        x > y
    }) || (x == y && a < b)
}

/// Places in order.
pub open spec fn ranked(ranks: Seq<i64>, ascending: bool, r: Seq<usize>) -> bool {
    forall|i: int, j: int|
        0 <= i < j < r.len() ==> ahead(ranks, ascending, #[trigger] r[i], #[trigger] r[j])
}

/// The places from `lo` up to `hi`, each once.
pub open spec fn covers(r: Seq<usize>, lo: int, hi: int) -> bool {
    &&& r.len() == hi - lo
    &&& forall|i: int| 0 <= i < r.len() ==> lo <= #[trigger] r[i] < hi
    &&& forall|k: usize| lo <= k < hi ==> #[trigger] r.contains(k)
}

/// Whether a hit comes before another.
fn is_ahead(ranks: &Vec<i64>, ascending: bool, a: usize, b: usize) -> (r: bool)
    requires
        a < ranks@.len(),
        b < ranks@.len(),
    ensures
        r == ahead(ranks@, ascending, a, b),
{
    let x: i64 = ranks[a];
    let y: i64 = ranks[b];
    if x == y {
        a < b
    } else if ascending {
        x < y
    } else {
        x > y
    }
}

/// What the longer of two lists that differ by one item contains.
proof fn lemma_pushed(s: Seq<usize>, x: usize, y: usize)
    ensures
        s.push(x).contains(y) <==> s.contains(y) || y == x,
{
    crate::pubsub::lemma_push_contains(s, x, y);
}

/// Two lists in order, one of earlier and one of later places, as one.
fn merge_ranked(
    ranks: &Vec<i64>,
    ascending: bool,
    left: &Vec<usize>,
    right: &Vec<usize>,
    lo: usize,
    mid: usize,
    hi: usize,
) -> (r: Vec<usize>)
    requires
        lo <= mid <= hi <= ranks@.len(),
        covers(left@, lo as int, mid as int),
        covers(right@, mid as int, hi as int),
        ranked(ranks@, ascending, left@),
        ranked(ranks@, ascending, right@),
    ensures
        covers(r@, lo as int, hi as int),
        ranked(ranks@, ascending, r@),
{
    let mut r: Vec<usize> = Vec::new();
    let mut i: usize = 0;
    let mut j: usize = 0;
    while i < left.len() || j < right.len()
        invariant
            lo <= mid <= hi <= ranks@.len(),
            covers(left@, lo as int, mid as int),
            covers(right@, mid as int, hi as int),
            ranked(ranks@, ascending, left@),
            ranked(ranks@, ascending, right@),
            i <= left.len(),
            j <= right.len(),
            r@.len() == i + j,
            ranked(ranks@, ascending, r@),
            forall|k: int| 0 <= k < r@.len() ==> lo <= #[trigger] r@[k] < hi,
            forall|k: int, m: int|
                0 <= k < r@.len() && i <= m < left@.len() ==> ahead(
                    ranks@,
                    ascending,
                    #[trigger] r@[k],
                    #[trigger] left@[m],
                ),
            forall|k: int, m: int|
                0 <= k < r@.len() && j <= m < right@.len() ==> ahead(
                    ranks@,
                    ascending,
                    #[trigger] r@[k],
                    #[trigger] right@[m],
                ),
            forall|m: int| 0 <= m < i ==> r@.contains(#[trigger] left@[m]),
            forall|m: int| 0 <= m < j ==> r@.contains(#[trigger] right@[m]),
        decreases left.len() - i + right.len() - j,
    {
        let from_left: bool = if i < left.len() {
            if j < right.len() {
                is_ahead(ranks, ascending, left[i], right[j])
            } else {
                true
            }
        } else {
            false
        };
        let ghost before = r@;
        if from_left {
            let x: usize = left[i];
            proof {
                assert forall|m: int| j <= m < right@.len() implies ahead(
                    ranks@,
                    ascending,
                    x,
                    #[trigger] right@[m],
                ) by {
                    if m > j {
                        assert(ahead(ranks@, ascending, right@[j as int], right@[m]));
                    }
                }
                assert forall|y: usize| #[trigger] before.contains(y) implies before.push(
                    x,
                ).contains(y) by {
                    lemma_pushed(before, x, y);
                }
                lemma_pushed(before, x, x);
            }
            r.push(x);
            i += 1;
        } else {
            let x: usize = right[j];
            proof {
                assert forall|m: int| i <= m < left@.len() implies ahead(
                    ranks@,
                    ascending,
                    x,
                    #[trigger] left@[m],
                ) by {
                    if m > i {
                        assert(ahead(ranks@, ascending, left@[i as int], left@[m]));
                    }
                }
                assert forall|y: usize| #[trigger] before.contains(y) implies before.push(
                    x,
                ).contains(y) by {
                    lemma_pushed(before, x, y);
                }
                lemma_pushed(before, x, x);
            }
            r.push(x);
            j += 1;
        }
    }
    assert forall|k: usize| lo <= k < hi implies #[trigger] r@.contains(k) by {
        if k < mid {
            assert(left@.contains(k));
            let m = choose|m: int| 0 <= m < left@.len() && left@[m] == k;
            assert(r@.contains(left@[m]));
        } else {
            assert(right@.contains(k));
            let m = choose|m: int| 0 <= m < right@.len() && right@[m] == k;
            assert(r@.contains(right@[m]));
        }
    }
    r
}

/// Puts the places from `lo` up to `hi` in order.
fn rank_range(ranks: &Vec<i64>, ascending: bool, lo: usize, hi: usize) -> (r: Vec<usize>)
    requires
        lo <= hi <= ranks@.len(),
    ensures
        covers(r@, lo as int, hi as int),
        ranked(ranks@, ascending, r@),
    decreases hi - lo,
{
    let mut r: Vec<usize> = Vec::new();
    if hi - lo == 0 {
        return r;
    }
    if hi - lo == 1 {
        r.push(lo);
        assert(r@[0] == lo);
        return r;
    }
    let mid: usize = lo + (hi - lo) / 2;
    let left: Vec<usize> = rank_range(ranks, ascending, lo, mid);
    let right: Vec<usize> = rank_range(ranks, ascending, mid, hi);
    merge_ranked(ranks, ascending, &left, &right, lo, mid, hi)
}

/// The places of hits in order of their ranks, upwards or downwards; hits of equal rank stay in
/// order.
pub fn order_by_rank(ranks: &Vec<i64>, ascending: bool) -> (r: Vec<usize>)
    ensures
        covers(r@, 0, ranks@.len() as int),
        ranked(ranks@, ascending, r@),
{
    rank_range(ranks, ascending, 0, ranks.len())
}

/// The lesser of two numbers.
pub open spec fn lesser(a: usize, b: Option<usize>) -> usize {
    match b {
        Some(k) => if k < a {
            k
        } else {
            a
        },
        None => a,
    }
}

fn least(a: usize, b: Option<usize>) -> (r: usize)
    ensures
        r == lesser(a, b),
{
    match b {
        Some(k) => if k < a {
            k
        } else {
            a
        },
        None => a,
    }
}

/// A page of a list.
pub open spec fn page(s: Seq<usize>, offset: nat, limit: nat) -> Seq<usize> {
    let start = if offset < s.len() {
        offset as int
    } else {
        s.len() as int
    };
    let end = if start + limit < s.len() {
        start + limit
    } else {
        s.len() as int
    };
    s.subrange(start, end)
}

/// The hits of all shards together: how many there are, and the places of those on the page that was
/// asked for, when the hits are in order of their ranks. A search for the nearest counts and shows
/// no more than it asks for.
pub fn merge_hits(
    totals: &Vec<usize>,
    ranks: &Vec<i64>,
    ascending: bool,
    offset: usize,
    limit: usize,
    nearest: Option<usize>,
) -> (r: (usize, Vec<usize>))
    ensures
        r.0 == lesser(sum(totals@), nearest),
        exists|order: Seq<usize>| #[trigger]
            covers(order, 0, ranks@.len() as int) && ranked(ranks@, ascending, order) && r.1@
                == page(order, offset as nat, lesser(limit, nearest) as nat),
{
    let total: usize = least(sum_counts(totals), nearest);
    let most: usize = least(limit, nearest);
    let order: Vec<usize> = order_by_rank(ranks, ascending);
    let mut shown: Vec<usize> = Vec::new();
    let start: usize = if offset < order.len() {
        offset
    } else {
        order.len()
    };
    let mut i: usize = start;
    while i < order.len() && i - start < most
        invariant
            start <= i <= order.len(),
            i - start <= most,
            shown@ == order@.subrange(start as int, i as int),
        decreases order.len() - i,
    {
        shown.push(order[i]);
        i += 1;
        assert(shown@ =~= order@.subrange(start as int, i as int));
    }
    assert(shown@ =~= page(order@, offset as nat, most as nat));
    (total, shown)
}

/// There is one order of hits: two that put the same places in order are the same.
pub proof fn law_order_is_one(ranks: Seq<i64>, ascending: bool, a: Seq<usize>, b: Seq<usize>)
    requires
        covers(a, 0, ranks.len() as int),
        covers(b, 0, ranks.len() as int),
        ranked(ranks, ascending, a),
        ranked(ranks, ascending, b),
        ranks.len() <= usize::MAX,
    ensures
        a == b,
{
    lemma_order_is_one(ranks, ascending, a, b, ranks.len());
    assert(a.take(a.len() as int) == a);
    assert(b.take(b.len() as int) == b);
}

proof fn lemma_order_is_one(
    ranks: Seq<i64>,
    ascending: bool,
    a: Seq<usize>,
    b: Seq<usize>,
    n: nat,
)
    requires
        covers(a, 0, ranks.len() as int),
        covers(b, 0, ranks.len() as int),
        ranked(ranks, ascending, a),
        ranked(ranks, ascending, b),
        n <= ranks.len() <= usize::MAX,
    ensures
        a.take(n as int) == b.take(n as int),
    decreases n,
{
    if n > 0 {
        lemma_order_is_one(ranks, ascending, a, b, (n - 1) as nat);
        let k = n - 1;
        let p = a.take(k);
        let q = b.take(k);
        if a[k] != b[k] {
            // Each of the two stands further back in the other list, so each is ahead of the other.
            assert(b.contains(a[k]));
            let i = choose|i: int| 0 <= i < b.len() && b[i] == a[k];
            assert(a.contains(b[k]));
            let j = choose|j: int| 0 <= j < a.len() && a[j] == b[k];
            if i < k {
                assert(p[i] == a[i] && q[i] == b[i]);
                assert(ahead(ranks, ascending, a[i], a[k]));
            }
            if j < k {
                assert(p[j] == a[j] && q[j] == b[j]);
                assert(ahead(ranks, ascending, b[j], b[k]));
            }
            assert(ahead(ranks, ascending, b[k], b[i]));
            assert(ahead(ranks, ascending, a[k], a[j]));
        }
        assert(a.take(n as int) =~= p.push(a[k]));
        assert(b.take(n as int) =~= q.push(b[k]));
    }
}

/// What each shard is asked for: all hits up to the end of the page.
pub fn scatter_options(opts: SearchOptions) -> (r: SearchOptions)
    ensures
        r@ == (SearchOptionsView {
            offset: 0,
            limit: if opts.offset + opts.limit <= usize::MAX {
                (opts.offset + opts.limit) as usize
            } else {
                usize::MAX
            },
            ..opts@
        }),
{
    let limit: usize = opts.offset.saturating_add(opts.limit);
    SearchOptions { offset: 0, limit, ..opts }
}

/// The search behind an aggregation: up to a hundred thousand hits, with the fields that it loads.
pub fn aggregate_options(load_fields: Vec<String>) -> (r: SearchOptions)
    ensures
        r@ == (SearchOptionsView {
            limit: 100_000,
            return_fields: if load_fields@.len() == 0 {
                None
            } else {
                Some(texts(load_fields@))
            },
            ..SearchOptions::plain()
        }),
{
    let plain = SearchOptions::default();
    SearchOptions {
        offset: 0,
        limit: 100_000,
        nocontent: false,
        sortby: None,
        return_fields: if load_fields.len() == 0 {
            None
        } else {
            Some(load_fields)
        },
        params: plain.params,
    }
}

/// A page holds the hits from its offset on, in their order, up to its limit or to the last.
pub proof fn law_pages(s: Seq<usize>, offset: nat, limit: nat, i: int)
    ensures
        offset <= s.len() && offset + limit <= s.len() ==> page(s, offset, limit).len() == limit,
        offset <= s.len() && offset + limit > s.len() ==> page(s, offset, limit).len() == s.len()
            - offset,
        offset > s.len() ==> page(s, offset, limit).len() == 0,
        0 <= i < page(s, offset, limit).len() ==> page(s, offset, limit)[i] == s[offset + i],
        lesser(5, None) == 5,
        forall|a: usize, b: usize| #[trigger] lesser(a, Some(b)) <= a && lesser(a, Some(b)) <= b && (
        lesser(a, Some(b)) == a || lesser(a, Some(b)) == b),
        forall|a: usize| #[trigger] lesser(a, None) == a,
{
}

/// Of two hits the one with the lower rank comes first where ranks go up, and the one with the higher
/// rank where they go down; of two with the same rank the one that was found first.
pub proof fn law_better_hits_come_first(ranks: Seq<i64>, a: usize, b: usize)
    requires
        a < ranks.len(),
        b < ranks.len(),
    ensures
        ranks[a as int] < ranks[b as int] ==> ahead(ranks, true, a, b) && !ahead(ranks, true, b, a)
            && ahead(ranks, false, b, a) && !ahead(ranks, false, a, b),
        ranks[a as int] == ranks[b as int] && a < b ==> ahead(ranks, true, a, b) && ahead(
            ranks,
            false,
            a,
            b,
        ) && !ahead(ranks, true, b, a) && !ahead(ranks, false, b, a),
        !ahead(ranks, true, a, a) && !ahead(ranks, false, a, a),
{
}

} // verus!
