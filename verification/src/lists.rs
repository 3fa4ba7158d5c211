//! Lists of byte strings and texts, and the lists that arguments are gathered in.
use bytes::Bytes;
use smallvec::SmallVec;
use vstd::prelude::*;

use crate::octets::content;
use crate::operands::{Double, StreamId};
use crate::text::{lossy, lossy_text};

verus! {

pub open spec fn contents(s: Seq<Bytes>) -> Seq<Seq<u8>> {
    s.map_values(|b: Bytes| content(b))
}

pub open spec fn texts(s: Seq<String>) -> Seq<Seq<char>> {
    s.map_values(|t: String| t@)
}

pub open spec fn pair_contents(s: Seq<(Bytes, Bytes)>) -> Seq<(Seq<u8>, Seq<u8>)> {
    s.map_values(|p: (Bytes, Bytes)| (content(p.0), content(p.1)))
}

pub open spec fn content_opt(b: Option<Bytes>) -> Option<Seq<u8>> {
    match b {
        Some(x) => Some(content(x)),
        None => None,
    }
}

pub open spec fn text_opt(t: Option<String>) -> Option<Seq<char>> {
    match t {
        Some(x) => Some(x@),
        None => None,
    }
}

pub open spec fn lossy_texts(a: Seq<Seq<u8>>) -> Seq<Seq<char>> {
    a.map_values(|b: Seq<u8>| lossy_text(b))
}

/// The items of a list of even length, two by two.
pub open spec fn paired(a: Seq<Seq<u8>>) -> Seq<(Seq<u8>, Seq<u8>)> {
    Seq::new((a.len() / 2) as nat, |i: int| (a[2 * i], a[2 * i + 1]))
}

/// Where `count` items that start at `i` end, but no later than the end of the list.
pub open spec fn stop_index(a: Seq<Seq<u8>>, i: int, count: usize) -> int {
    if i + count <= a.len() {
        i + count
    } else if i <= a.len() {
        a.len() as int
    } else {
        i
    }
}

/// Keys of one command: mostly one, which a `SmallVec` holds without an allocation.
#[verifier::external_body]
#[derive(Debug, PartialEq, Eq)]
pub struct KeyList {
    items: SmallVec<[Bytes; 1]>,
}

/// The byte strings in a `KeyList`.
pub uninterp spec fn listed(v: KeyList) -> Seq<Seq<u8>>;

impl KeyList {
    /// `SmallVec::new`: no keys.
    #[verifier::external_body]
    pub(crate) fn new() -> (r: KeyList)
        ensures
            listed(r) == Seq::<Seq<u8>>::empty(),
    {
        KeyList { items: SmallVec::new() }
    }

    /// `SmallVec::push`: one more key at the end.
    #[verifier::external_body]
    pub(crate) fn push(&mut self, key: Bytes)
        ensures
            listed(*final(self)) == listed(*old(self)).push(content(key)),
    {
        self.items.push(key)
    }

    /// `SmallVec::as_slice`: the keys, in order.
    #[verifier::external_body]
    pub(crate) fn as_slice(&self) -> (r: &[Bytes])
        ensures
            contents(r@) == listed(*self),
    {
        self.items.as_slice()
    }

    /// `SmallVec::spilled`: whether the keys take an allocation. There is room for one without,
    /// and a list only grows, by one at a time.
    #[verifier::external_body]
    fn is_spilled(&self) -> (r: bool)
        ensures
            r == (listed(*self).len() > 1),
    {
        self.items.spilled()
    }

    /// The list of the given keys.
    pub fn of(items: &[Bytes]) -> (r: KeyList)
        ensures
            listed(r) == contents(items@),
    {
        let mut v: KeyList = KeyList::new();
        let mut i: usize = 0;
        while i < items.len()
            invariant
                i <= items.len(),
                listed(v) =~= contents(items@).take(i as int),
            decreases items.len() - i,
        {
            v.push(items[i].clone());
            i = i + 1;
        }
        assert(contents(items@).take(items.len() as int) =~= contents(items@));
        v
    }

    pub fn len(&self) -> (r: usize)
        ensures
            r == listed(*self).len(),
    {
        self.as_slice().len()
    }

    /// The key at place `i`.
    pub fn get(&self, i: usize) -> (r: &Bytes)
        requires
            i < listed(*self).len(),
        ensures
            content(*r) == listed(*self)[i as int],
    {
        &self.as_slice()[i]
    }

    /// Whether the keys take an allocation: more than one does.
    pub fn spilled(&self) -> (r: bool)
        ensures
            r == (listed(*self).len() > 1),
    {
        self.is_spilled()
    }
}

impl Clone for KeyList {
    fn clone(&self) -> (r: KeyList)
        ensures
            listed(r) == listed(*self),
    {
        KeyList::of(self.as_slice())
    }
}

/// Field and value pairs of one command, in a `SmallVec`.
#[verifier::external_body]
#[derive(Debug, PartialEq, Eq)]
pub struct PairList {
    items: SmallVec<[(Bytes, Bytes); 1]>,
}

/// The pairs in a `PairList`.
pub uninterp spec fn listed_pairs(v: PairList) -> Seq<(Seq<u8>, Seq<u8>)>;

impl PairList {
    /// `SmallVec::new`: no pairs.
    #[verifier::external_body]
    pub(crate) fn new() -> (r: PairList)
        ensures
            listed_pairs(r) == Seq::<(Seq<u8>, Seq<u8>)>::empty(),
    {
        PairList { items: SmallVec::new() }
    }

    /// `SmallVec::push`: one more pair at the end.
    #[verifier::external_body]
    pub(crate) fn push(&mut self, field: Bytes, value: Bytes)
        ensures
            listed_pairs(*final(self)) == listed_pairs(*old(self)).push((
                content(field),
                content(value),
            )),
    {
        self.items.push((field, value))
    }

    /// `SmallVec::as_slice`: the pairs, in order.
    #[verifier::external_body]
    pub(crate) fn as_slice(&self) -> (r: &[(Bytes, Bytes)])
        ensures
            pair_contents(r@) == listed_pairs(*self),
    {
        self.items.as_slice()
    }

    /// `SmallVec::spilled`: whether the pairs take an allocation. There is room for one without,
    /// and a list only grows, by one at a time.
    #[verifier::external_body]
    fn is_spilled(&self) -> (r: bool)
        ensures
            r == (listed_pairs(*self).len() > 1),
    {
        self.items.spilled()
    }

    /// The list of the given pairs.
    pub fn of(items: &[(Bytes, Bytes)]) -> (r: PairList)
        ensures
            listed_pairs(r) == pair_contents(items@),
    {
        let mut v: PairList = PairList::new();
        let mut i: usize = 0;
        while i < items.len()
            invariant
                i <= items.len(),
                listed_pairs(v) =~= pair_contents(items@).take(i as int),
            decreases items.len() - i,
        {
            v.push(items[i].0.clone(), items[i].1.clone());
            i = i + 1;
        }
        assert(pair_contents(items@).take(items.len() as int) =~= pair_contents(items@));
        v
    }

    pub fn len(&self) -> (r: usize)
        ensures
            r == listed_pairs(*self).len(),
    {
        self.as_slice().len()
    }

    /// The pair at place `i`.
    pub fn get(&self, i: usize) -> (r: &(Bytes, Bytes))
        requires
            i < listed_pairs(*self).len(),
        ensures
            (content(r.0), content(r.1)) == listed_pairs(*self)[i as int],
    {
        &self.as_slice()[i]
    }

    /// Whether the pairs take an allocation: more than one does.
    pub fn spilled(&self) -> (r: bool)
        ensures
            r == (listed_pairs(*self).len() > 1),
    {
        self.is_spilled()
    }
}

impl Clone for PairList {
    fn clone(&self) -> (r: PairList)
        ensures
            listed_pairs(r) == listed_pairs(*self),
    {
        PairList::of(self.as_slice())
    }
}

/// Scored members of one command, in a `SmallVec`.
#[verifier::external_body]
#[derive(Debug, PartialEq, Eq)]
pub struct ScoreList {
    items: SmallVec<[(Double, Bytes); 1]>,
}

/// The members in a `ScoreList`, each with its score.
pub uninterp spec fn listed_scores(v: ScoreList) -> Seq<(Double, Seq<u8>)>;

impl ScoreList {
    /// `SmallVec::new`: no members.
    #[verifier::external_body]
    pub(crate) fn new() -> (r: ScoreList)
        ensures
            listed_scores(r) == Seq::<(Double, Seq<u8>)>::empty(),
    {
        ScoreList { items: SmallVec::new() }
    }

    /// `SmallVec::push`: one more member at the end.
    #[verifier::external_body]
    pub(crate) fn push(&mut self, score: Double, member: Bytes)
        ensures
            listed_scores(*final(self)) == listed_scores(*old(self)).push((score, content(member))),
    {
        self.items.push((score, member))
    }

    /// `SmallVec::as_slice`: the members, in order.
    #[verifier::external_body]
    pub(crate) fn as_slice(&self) -> (r: &[(Double, Bytes)])
        ensures
            scored(r@) == listed_scores(*self),
    {
        self.items.as_slice()
    }

    /// `SmallVec::spilled`: whether the members take an allocation. There is room for one without,
    /// and a list only grows, by one at a time.
    #[verifier::external_body]
    fn is_spilled(&self) -> (r: bool)
        ensures
            r == (listed_scores(*self).len() > 1),
    {
        self.items.spilled()
    }

    /// The list of the given members.
    pub fn of(items: &[(Double, Bytes)]) -> (r: ScoreList)
        ensures
            listed_scores(r) == scored(items@),
    {
        let mut v: ScoreList = ScoreList::new();
        let mut i: usize = 0;
        while i < items.len()
            invariant
                i <= items.len(),
                listed_scores(v) =~= scored(items@).take(i as int),
            decreases items.len() - i,
        {
            v.push(items[i].0, items[i].1.clone());
            i = i + 1;
        }
        assert(scored(items@).take(items.len() as int) =~= scored(items@));
        v
    }

    pub fn len(&self) -> (r: usize)
        ensures
            r == listed_scores(*self).len(),
    {
        self.as_slice().len()
    }

    /// The member at place `i`.
    pub fn get(&self, i: usize) -> (r: &(Double, Bytes))
        requires
            i < listed_scores(*self).len(),
        ensures
            (r.0, content(r.1)) == listed_scores(*self)[i as int],
    {
        &self.as_slice()[i]
    }

    /// Whether the members take an allocation: more than one does.
    pub fn spilled(&self) -> (r: bool)
        ensures
            r == (listed_scores(*self).len() > 1),
    {
        self.is_spilled()
    }
}

impl Clone for ScoreList {
    fn clone(&self) -> (r: ScoreList)
        ensures
            listed_scores(r) == listed_scores(*self),
    {
        ScoreList::of(self.as_slice())
    }
}

pub open spec fn scored(s: Seq<(Double, Bytes)>) -> Seq<(Double, Seq<u8>)> {
    s.map_values(|p: (Double, Bytes)| (p.0, content(p.1)))
}

pub open spec fn text_pairs(s: Seq<(String, String)>) -> Seq<(Seq<char>, Seq<char>)> {
    s.map_values(|p: (String, String)| (p.0@, p.1@))
}

pub open spec fn node_weights(s: Seq<(String, Double)>) -> Seq<(Seq<char>, Double)> {
    s.map_values(|p: (String, Double)| (p.0@, p.1))
}

pub open spec fn places(s: Seq<(Double, Double, Bytes)>) -> Seq<(Double, Double, Seq<u8>)> {
    s.map_values(|p: (Double, Double, Bytes)| (p.0, p.1, content(p.2)))
}

pub open spec fn counted(s: Seq<(Bytes, u64)>) -> Seq<(Seq<u8>, u64)> {
    s.map_values(|p: (Bytes, u64)| (content(p.0), p.1))
}

pub open spec fn condition_view(c: Option<(String, Bytes)>) -> Option<(Seq<char>, Seq<u8>)> {
    match c {
        Some((op, value)) => Some((op@, content(value))),
        None => None,
    }
}

pub open spec fn login_view(c: Option<(String, String)>) -> Option<(Seq<char>, Seq<char>)> {
    match c {
        Some((user, password)) => Some((user@, password@)),
        None => None,
    }
}

pub open spec fn pending_view(r: Option<(StreamId, StreamId, usize, Option<Bytes>)>) -> Option<
    (StreamId, StreamId, usize, Option<Seq<u8>>),
> {
    match r {
        Some((start, end, count, consumer)) => Some((start, end, count, content_opt(consumer))),
        None => None,
    }
}

pub(crate) fn no_keys() -> (r: Vec<Bytes>)
    ensures
        contents(r@) == Seq::<Seq<u8>>::empty(),
{
    let v: Vec<Bytes> = Vec::new();
    assert(contents(v@) =~= Seq::<Seq<u8>>::empty());
    v
}

pub(crate) fn no_texts() -> (r: Vec<String>)
    ensures
        texts(r@) == Seq::<Seq<char>>::empty(),
{
    let v: Vec<String> = Vec::new();
    assert(texts(v@) =~= Seq::<Seq<char>>::empty());
    v
}

pub(crate) fn no_pairs() -> (r: Vec<(Bytes, Bytes)>)
    ensures
        pair_contents(r@) == Seq::<(Seq<u8>, Seq<u8>)>::empty(),
{
    let v: Vec<(Bytes, Bytes)> = Vec::new();
    assert(pair_contents(v@) =~= Seq::<(Seq<u8>, Seq<u8>)>::empty());
    v
}

pub(crate) fn push_key(v: &mut Vec<Bytes>, b: Bytes)
    ensures
        contents(final(v)@) == contents(old(v)@).push(content(b)),
{
    v.push(b);
    assert(contents(v@) =~= contents(old(v)@).push(content(b)));
}

pub(crate) fn push_text(v: &mut Vec<String>, t: String)
    ensures
        texts(final(v)@) == texts(old(v)@).push(t@),
{
    v.push(t);
    assert(texts(v@) =~= texts(old(v)@).push(t@));
}

pub(crate) fn push_pair(v: &mut Vec<(Bytes, Bytes)>, x: Bytes, y: Bytes)
    ensures
        pair_contents(final(v)@) == pair_contents(old(v)@).push((content(x), content(y))),
{
    v.push((x, y));
    assert(pair_contents(v@) =~= pair_contents(old(v)@).push((content(x), content(y))));
}

pub(crate) fn no_weights() -> (r: Vec<(String, Double)>)
    ensures
        node_weights(r@) == Seq::<(Seq<char>, Double)>::empty(),
{
    let v: Vec<(String, Double)> = Vec::new();
    assert(node_weights(v@) =~= Seq::<(Seq<char>, Double)>::empty());
    v
}

pub(crate) fn push_weight(v: &mut Vec<(String, Double)>, node: String, weight: Double)
    ensures
        node_weights(final(v)@) == node_weights(old(v)@).push((node@, weight)),
{
    v.push((node, weight));
    assert(node_weights(v@) =~= node_weights(old(v)@).push((node@, weight)));
}

pub(crate) fn no_places() -> (r: Vec<(Double, Double, Bytes)>)
    ensures
        places(r@) == Seq::<(Double, Double, Seq<u8>)>::empty(),
{
    let v: Vec<(Double, Double, Bytes)> = Vec::new();
    assert(places(v@) =~= Seq::<(Double, Double, Seq<u8>)>::empty());
    v
}

pub(crate) fn push_place(v: &mut Vec<(Double, Double, Bytes)>, lon: Double, lat: Double, b: Bytes)
    ensures
        places(final(v)@) == places(old(v)@).push((lon, lat, content(b))),
{
    v.push((lon, lat, b));
    assert(places(v@) =~= places(old(v)@).push((lon, lat, content(b))));
}

pub(crate) fn no_counted() -> (r: Vec<(Bytes, u64)>)
    ensures
        counted(r@) == Seq::<(Seq<u8>, u64)>::empty(),
{
    let v: Vec<(Bytes, u64)> = Vec::new();
    assert(counted(v@) =~= Seq::<(Seq<u8>, u64)>::empty());
    v
}

pub(crate) fn push_counted(v: &mut Vec<(Bytes, u64)>, b: Bytes, n: u64)
    ensures
        counted(final(v)@) == counted(old(v)@).push((content(b), n)),
{
    v.push((b, n));
    assert(counted(v@) =~= counted(old(v)@).push((content(b), n)));
}

pub(crate) fn no_text_pairs() -> (r: Vec<(String, String)>)
    ensures
        text_pairs(r@) == Seq::<(Seq<char>, Seq<char>)>::empty(),
{
    let v: Vec<(String, String)> = Vec::new();
    assert(text_pairs(v@) =~= Seq::<(Seq<char>, Seq<char>)>::empty());
    v
}

pub(crate) fn push_text_pair(v: &mut Vec<(String, String)>, x: String, y: String)
    ensures
        text_pairs(final(v)@) == text_pairs(old(v)@).push((x@, y@)),
{
    v.push((x, y));
    assert(text_pairs(v@) =~= text_pairs(old(v)@).push((x@, y@)));
}

/// The arguments from `from` up to `to`.
pub(crate) fn keys_between(args: &Vec<Bytes>, from: usize, to: usize) -> (r: Vec<Bytes>)
    requires
        from <= to <= args.len(),
    ensures
        contents(r@) == contents(args@).subrange(from as int, to as int),
{
    let mut v: Vec<Bytes> = Vec::with_capacity(to - from);
    let mut i: usize = from;
    while i < to
        invariant
            from <= i <= to <= args.len(),
            contents(v@) =~= contents(args@).subrange(from as int, i as int),
        decreases to - i,
    {
        let b: Bytes = args[i].clone();
        push_key(&mut v, b);
        i = i + 1;
    }
    v
}

/// The arguments from `from` on.
pub(crate) fn keys_from(args: &Vec<Bytes>, from: usize) -> (r: Vec<Bytes>)
    requires
        from <= args.len(),
    ensures
        contents(r@) == contents(args@).skip(from as int),
{
    let v: Vec<Bytes> = keys_between(args, from, args.len());
    assert(contents(args@).subrange(from as int, args.len() as int) =~= contents(args@).skip(
        from as int,
    ));
    v
}

pub(crate) fn key_list_from(args: &Vec<Bytes>, from: usize) -> (r: KeyList)
    requires
        from <= args.len(),
    ensures
        listed(r) == contents(args@).skip(from as int),
{
    let mut v: KeyList = KeyList::new();
    let mut i: usize = from;
    while i < args.len()
        invariant
            from <= i <= args.len(),
            listed(v) =~= contents(args@).subrange(from as int, i as int),
        decreases args.len() - i,
    {
        v.push(args[i].clone());
        i = i + 1;
    }
    assert(contents(args@).subrange(from as int, args.len() as int) =~= contents(args@).skip(
        from as int,
    ));
    v
}

pub(crate) fn texts_between(args: &Vec<Bytes>, from: usize, to: usize) -> (r: Vec<String>)
    requires
        from <= to <= args.len(),
    ensures
        texts(r@) == lossy_texts(contents(args@).subrange(from as int, to as int)),
{
    let mut v: Vec<String> = Vec::with_capacity(to - from);
    let mut i: usize = from;
    while i < to
        invariant
            from <= i <= to <= args.len(),
            texts(v@) =~= lossy_texts(contents(args@).subrange(from as int, i as int)),
        decreases to - i,
    {
        let t: String = lossy(&args[i]);
        push_text(&mut v, t);
        i = i + 1;
    }
    v
}

/// The texts of `v`, and behind them those of the arguments from `from` up to `to`.
pub(crate) fn append_texts(v: Vec<String>, args: &Vec<Bytes>, from: usize, to: usize) -> (r: Vec<
    String,
>)
    requires
        from <= to <= args.len(),
    ensures
        texts(r@) == texts(v@) + lossy_texts(contents(args@).subrange(from as int, to as int)),
{
    let mut w: Vec<String> = v;
    let mut i: usize = from;
    while i < to
        invariant
            from <= i <= to <= args.len(),
            texts(w@) =~= texts(v@) + lossy_texts(
                contents(args@).subrange(from as int, i as int),
            ),
        decreases to - i,
    {
        let t: String = lossy(&args[i]);
        push_text(&mut w, t);
        i = i + 1;
    }
    w
}

pub(crate) fn texts_from(args: &Vec<Bytes>, from: usize) -> (r: Vec<String>)
    requires
        from <= args.len(),
    ensures
        texts(r@) == lossy_texts(contents(args@).skip(from as int)),
{
    let v: Vec<String> = texts_between(args, from, args.len());
    assert(contents(args@).subrange(from as int, args.len() as int) =~= contents(args@).skip(
        from as int,
    ));
    v
}

/// The arguments from `from` on, two by two; one left over at the end is dropped.
pub(crate) fn pairs_from(args: &Vec<Bytes>, from: usize) -> (r: Vec<(Bytes, Bytes)>)
    requires
        from <= args.len(),
    ensures
        pair_contents(r@) == paired(contents(args@).skip(from as int)),
{
    let n: usize = (args.len() - from) / 2;
    let mut v: Vec<(Bytes, Bytes)> = Vec::with_capacity(n);
    let ghost a = contents(args@).skip(from as int);
    let mut i: usize = 0;
    while i < n
        invariant
            from <= args.len(),
            n == (args.len() - from) / 2,
            i <= n,
            a == contents(args@).skip(from as int),
            pair_contents(v@) =~= paired(a).take(i as int),
        decreases n - i,
    {
        let x: Bytes = args[from + 2 * i].clone();
        let y: Bytes = args[from + 2 * i + 1].clone();
        push_pair(&mut v, x, y);
        i = i + 1;
    }
    assert(paired(a).take(n as int) =~= paired(a));
    v
}

pub(crate) fn pair_list_from(args: &Vec<Bytes>, from: usize) -> (r: PairList)
    requires
        from <= args.len(),
    ensures
        listed_pairs(r) == paired(contents(args@).skip(from as int)),
{
    let n: usize = (args.len() - from) / 2;
    let mut v: PairList = PairList::new();
    let ghost a = contents(args@).skip(from as int);
    let mut i: usize = 0;
    while i < n
        invariant
            from <= args.len(),
            n == (args.len() - from) / 2,
            i <= n,
            a == contents(args@).skip(from as int),
            listed_pairs(v) =~= paired(a).take(i as int),
        decreases n - i,
    {
        v.push(args[from + 2 * i].clone(), args[from + 2 * i + 1].clone());
        i = i + 1;
    }
    assert(paired(a).take(n as int) =~= paired(a));
    v
}

pub(crate) fn stop_at(args: &Vec<Bytes>, i: usize, count: usize) -> (r: usize)
    ensures
        r == stop_index(contents(args@), i as int, count),
{
    if i > args.len() {
        i
    } else if count <= args.len() - i {
        i + count
    } else {
        args.len()
    }
}

/// Words that come in pairs: each pair is a word and the one behind it, and one pair more stands behind
/// the others.
pub proof fn law_pairs(a: Seq<Seq<u8>>, x: Seq<u8>, y: Seq<u8>)
    requires
        a.len() % 2 == 0,
    ensures
        paired(Seq::empty()) == Seq::<(Seq<u8>, Seq<u8>)>::empty(),
        paired(a.push(x).push(y)) == paired(a).push((x, y)),
{
    assert(paired(Seq::empty()) =~= Seq::<(Seq<u8>, Seq<u8>)>::empty());
    assert(paired(a.push(x).push(y)) =~= paired(a).push((x, y)));
}

/// Items that are announced by their number end behind the last of them, or with the list.
pub proof fn law_stops(a: Seq<Seq<u8>>, i: int, count: usize)
    requires
        0 <= i <= a.len(),
    ensures
        i <= stop_index(a, i, count) <= a.len(),
        i + count <= a.len() ==> stop_index(a, i, count) == i + count,
        i + count > a.len() ==> stop_index(a, i, count) == a.len(),
{
}

} // verus!
