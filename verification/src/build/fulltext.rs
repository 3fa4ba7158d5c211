//! Full-text search.
use bytes::Bytes;
use vstd::prelude::*;

use crate::command::{Command, CommandView, built, built_opt};
use crate::lists::{
    append_texts, contents, lossy_texts, no_text_pairs, no_texts, push_text, push_text_pair,
    stop_at, stop_index, text_pairs, texts, texts_between,
};
use crate::numbers::{read_usize, usize_of};
use crate::octets::{content, octets_of};
use crate::operands::Double;
use crate::readings::{ParseEnv, double_of};
use crate::search::{
    AggregateOptions, AggregateOptionsView, AggregateStage, AggregateStageView, ApplyStage,
    ApplyStageView, FieldMap, FieldType, FieldTypeView, GroupByStage, GroupByStageView, ParamMap,
    Reducer, ReducerView, SchemaField, SchemaFieldView, SearchOptions, SearchOptionsView,
    SortByStage, SortByStageView, copy_field_type, no_reducers, no_schema, no_sort_keys,
    no_stages, push_reducer, push_schema_field, push_sort_key, push_stage, put, reducer_views,
    schema_views, sort_key_opt, sort_keys, stage_views, texts_opt,
};
use crate::text::{lossy, lossy_text, lower_text, same_text, to_lower, upper, upper_word};

verus! {

pub open spec fn or_default_spec(v: Option<usize>, default: usize) -> usize {
    match v {
        Some(x) => x,
        None => default,
    }
}

fn or_default(v: Option<usize>, default: usize) -> (r: usize)
    ensures
        r == or_default_spec(v, default),
{
    match v {
        Some(x) => x,
        None => default,
    }
}

/// A number, or one where there is none.
pub open spec fn or_one_spec(v: Option<Double>) -> Double {
    match v {
        Some(x) => x,
        None => Double { bits: 0x3ff0_0000_0000_0000 },
    }
}

fn or_one(v: Option<Double>) -> (r: Double)
    ensures
        r == or_one_spec(v),
{
    match v {
        Some(x) => x,
        None => Double { bits: 0x3ff0_0000_0000_0000 },
    }
}

/// The name of a field, without the sign that may mark it as one.
pub open spec fn field_text(b: Seq<u8>) -> Seq<char> {
    let t = lossy_text(b);
    if t.len() > 0 && t[0] == '@' {
        t.skip(1)
    } else {
        t
    }
}

pub open spec fn field_texts(a: Seq<Seq<u8>>) -> Seq<Seq<char>> {
    a.map_values(|b: Seq<u8>| field_text(b))
}

fn field_name(b: &Bytes) -> (r: String)
    ensures
        r@ == field_text(content(*b)),
{
    let t: String = lossy(b);
    let n: usize = t.as_str().unicode_len();
    if n > 0 && t.as_str().get_char(0) == '@' {
        let s: String = t.as_str().substring_char(1, n).to_owned();
        assert(s@ =~= t@.skip(1));
        s
    } else {
        t
    }
}

/// The texts of `v`, and behind them the fields named from `from` up to `to`.
fn append_fields(v: Vec<String>, args: &Vec<Bytes>, from: usize, to: usize) -> (r: Vec<String>)
    requires
        from <= to <= args.len(),
    ensures
        texts(r@) == texts(v@) + field_texts(contents(args@).subrange(from as int, to as int)),
{
    let mut w: Vec<String> = v;
    let mut i: usize = from;
    while i < to
        invariant
            from <= i <= to <= args.len(),
            texts(w@) =~= texts(v@) + field_texts(
                contents(args@).subrange(from as int, i as int),
            ),
        decreases to - i,
    {
        let t: String = field_name(&args[i]);
        push_text(&mut w, t);
        i = i + 1;
    }
    w
}

fn fields_between(args: &Vec<Bytes>, from: usize, to: usize) -> (r: Vec<String>)
    requires
        from <= to <= args.len(),
    ensures
        texts(r@) == field_texts(contents(args@).subrange(from as int, to as int)),
{
    let r: Vec<String> = append_fields(no_texts(), args, from, to);
    assert(texts(r@) =~= field_texts(contents(args@).subrange(from as int, to as int)));
    r
}

/// The first field named from `from` up to `to`, or the empty name.
pub open spec fn first_field_spec(a: Seq<Seq<u8>>, from: int, to: int) -> Seq<char> {
    if from < to {
        field_text(a[from])
    } else {
        Seq::empty()
    }
}

fn first_field(args: &Vec<Bytes>, from: usize, to: usize) -> (r: String)
    requires
        from < to ==> from < args.len(),
    ensures
        r@ == first_field_spec(contents(args@), from as int, to as int),
{
    if from < to {
        field_name(&args[from])
    } else {
        String::new()
    }
}

/// Whether `s` begins with `p`.
pub open spec fn begins(s: Seq<char>, p: Seq<char>) -> bool {
    p.len() <= s.len() && s.take(p.len() as int) == p
}

/// Whether `s` ends with `p`.
pub open spec fn ends(s: Seq<char>, p: Seq<char>) -> bool {
    p.len() <= s.len() && s.skip(s.len() - p.len()) == p
}

/// What is left of `s` once `p` has been taken off its front as often as it stands there.
pub open spec fn trim_front(s: Seq<char>, p: Seq<char>) -> Seq<char>
    decreases s.len(),
{
    if p.len() > 0 && begins(s, p) {
        trim_front(s.skip(p.len() as int), p)
    } else {
        s
    }
}

/// What is left of `s` once `p` has been taken off its back as often as it stands there.
pub open spec fn trim_back(s: Seq<char>, p: Seq<char>) -> Seq<char>
    decreases s.len(),
{
    if p.len() > 0 && ends(s, p) {
        trim_back(s.take(s.len() - p.len()), p)
    } else {
        s
    }
}

fn trimmed_front(s: &str, p: &str) -> (r: String)
    requires
        p@.len() > 0,
    ensures
        r@ == trim_front(s@, p@),
{
    let k: usize = p.unicode_len();
    let mut t: String = s.to_owned();
    loop
        invariant
            k == p@.len(),
            k > 0,
            trim_front(t@, p@) == trim_front(s@, p@),
        ensures
            t@ == trim_front(s@, p@),
        decreases t@.len(),
    {
        let n: usize = t.as_str().unicode_len();
        if n < k {
            break;
        }
        let head: &str = t.as_str().substring_char(0, k);
        assert(head@ =~= t@.take(k as int));
        if !same_text(head, p) {
            break;
        }
        let rest: String = t.as_str().substring_char(k, n).to_owned();
        assert(rest@ =~= t@.skip(k as int));
        t = rest;
    }
    t
}

fn trimmed_back(s: &str, p: &str) -> (r: String)
    requires
        p@.len() > 0,
    ensures
        r@ == trim_back(s@, p@),
{
    let k: usize = p.unicode_len();
    let mut t: String = s.to_owned();
    loop
        invariant
            k == p@.len(),
            k > 0,
            trim_back(t@, p@) == trim_back(s@, p@),
        ensures
            t@ == trim_back(s@, p@),
        decreases t@.len(),
    {
        let n: usize = t.as_str().unicode_len();
        if n < k {
            break;
        }
        let tail: &str = t.as_str().substring_char(n - k, n);
        assert(tail@ =~= t@.skip(n - k));
        if !same_text(tail, p) {
            break;
        }
        let rest: String = t.as_str().substring_char(0, n - k).to_owned();
        assert(rest@ =~= t@.take(n - k));
        t = rest;
    }
    t
}

/// The name that a field goes by when none is given: that of a path into a document is what
/// stands between its root and its last step over all items.
pub open spec fn short_alias_spec(s: Seq<char>) -> Seq<char> {
    if begins(s, "$."@) {
        trim_back(trim_back(trim_front(s, "$."@), ".*"@), "[*]"@)
    } else {
        s
    }
}

fn short_alias(s: &str) -> (r: String)
    ensures
        r@ == short_alias_spec(s@),
{
    proof {
        reveal_strlit("$.");
        reveal_strlit(".*");
        reveal_strlit("[*]");
    }
    let n: usize = s.unicode_len();
    if n < 2 {
        return s.to_owned();
    }
    let head: &str = s.substring_char(0, 2);
    assert(head@ =~= s@.take(2));
    if !same_text(head, "$.") {
        return s.to_owned();
    }
    let t: String = trimmed_front(s, "$.");
    let t: String = trimmed_back(t.as_str(), ".*");
    trimmed_back(t.as_str(), "[*]")
}

/// The options of a text field from `i` on, and where they end.
pub open spec fn text_field(
    a: Seq<Seq<u8>>,
    env: &ParseEnv,
    weight: Double,
    sortable: bool,
    nostem: bool,
    i: int,
) -> (FieldTypeView, int)
    decreases a.len() - i,
{
    if i >= a.len() {
        (FieldTypeView::Text { weight, sortable, nostem }, i)
    } else {
        let opt = upper_word(a[i]);
        if opt == "WEIGHT"@ && a.len() - i > 1 {
            text_field(a, env, or_one_spec(double_of(env, a[i + 1])), sortable, nostem, i + 2)
        } else if opt == "SORTABLE"@ {
            text_field(a, env, weight, true, nostem, i + 1)
        } else if opt == "NOSTEM"@ {
            text_field(a, env, weight, sortable, true, i + 1)
        } else {
            (FieldTypeView::Text { weight, sortable, nostem }, i)
        }
    }
}

pub proof fn text_field_advances(
    a: Seq<Seq<u8>>,
    env: &ParseEnv,
    weight: Double,
    sortable: bool,
    nostem: bool,
    i: int,
)
    ensures
        i <= a.len() ==> i <= text_field(a, env, weight, sortable, nostem, i).1 <= a.len(),
    decreases a.len() - i,
{
    if i < a.len() {
        let opt = upper_word(a[i]);
        if opt == "WEIGHT"@ && a.len() - i > 1 {
            text_field_advances(
                a,
                env,
                or_one_spec(double_of(env, a[i + 1])),
                sortable,
                nostem,
                i + 2,
            );
        } else if opt == "SORTABLE"@ {
            text_field_advances(a, env, weight, true, nostem, i + 1);
        } else if opt == "NOSTEM"@ {
            text_field_advances(a, env, weight, sortable, true, i + 1);
        }
    }
}

/// The first character of the text of `b`, or a comma.
pub open spec fn separator_of(b: Seq<u8>) -> char {
    let t = lossy_text(b);
    if t.len() > 0 {
        t[0]
    } else {
        ','
    }
}

fn read_separator(b: &Bytes) -> (r: char)
    ensures
        r == separator_of(content(*b)),
{
    let t: String = lossy(b);
    if t.as_str().unicode_len() > 0 {
        t.as_str().get_char(0)
    } else {
        ','
    }
}

/// The options of a tag field from `i` on, and where they end.
pub open spec fn tag_field(
    a: Seq<Seq<u8>>,
    separator: char,
    casesensitive: bool,
    i: int,
) -> (FieldTypeView, int)
    decreases a.len() - i,
{
    if i >= a.len() {
        (FieldTypeView::Tag { separator, casesensitive }, i)
    } else {
        let opt = upper_word(a[i]);
        if opt == "SEPARATOR"@ && a.len() - i > 1 {
            tag_field(a, separator_of(a[i + 1]), casesensitive, i + 2)
        } else if opt == "CASESENSITIVE"@ {
            tag_field(a, separator, true, i + 1)
        } else {
            (FieldTypeView::Tag { separator, casesensitive }, i)
        }
    }
}

pub proof fn tag_field_advances(
    a: Seq<Seq<u8>>,
    separator: char,
    casesensitive: bool,
    i: int,
)
    ensures
        i <= a.len() ==> i <= tag_field(a, separator, casesensitive, i).1 <= a.len(),
    decreases a.len() - i,
{
    if i < a.len() {
        let opt = upper_word(a[i]);
        if opt == "SEPARATOR"@ && a.len() - i > 1 {
            tag_field_advances(a, separator_of(a[i + 1]), casesensitive, i + 2);
        } else if opt == "CASESENSITIVE"@ {
            tag_field_advances(a, separator, true, i + 1);
        }
    }
}

/// The options of a vector field from `i` on, and where they end.
pub open spec fn vector_field(
    a: Seq<Seq<u8>>,
    algorithm: Seq<char>,
    dim: usize,
    distance_metric: Seq<char>,
    i: int,
) -> (FieldTypeView, int)
    decreases a.len() - i,
{
    if i >= a.len() {
        (FieldTypeView::Vector { dim, distance_metric, algorithm }, i)
    } else {
        let opt = upper_word(a[i]);
        if opt == "DIM"@ && a.len() - i > 1 {
            let dim = or_default_spec(usize_of(a[i + 1]), 128);
            vector_field(a, algorithm, dim, distance_metric, i + 2)
        } else if opt == "DISTANCE_METRIC"@ && a.len() - i > 1 {
            vector_field(a, algorithm, dim, upper_word(a[i + 1]), i + 2)
        } else if opt == "TYPE"@ || opt == "FLOAT32"@ || opt == "M"@ || opt == "EF_CONSTRUCTION"@ {
            if a.len() - i > 1 {
                vector_field(a, algorithm, dim, distance_metric, i + 2)
            } else {
                (FieldTypeView::Vector { dim, distance_metric, algorithm }, i + 1)
            }
        } else if opt == "HNSW"@ || opt == "FLAT"@ || usize_of(a[i]) is Some {
            vector_field(a, algorithm, dim, distance_metric, i + 1)
        } else {
            (FieldTypeView::Vector { dim, distance_metric, algorithm }, i)
        }
    }
}

pub proof fn vector_field_advances(
    a: Seq<Seq<u8>>,
    algorithm: Seq<char>,
    dim: usize,
    distance_metric: Seq<char>,
    i: int,
)
    ensures
        i <= a.len() ==> i <= vector_field(a, algorithm, dim, distance_metric, i).1 <= a.len(),
    decreases a.len() - i,
{
    if i < a.len() {
        let opt = upper_word(a[i]);
        if opt == "DIM"@ && a.len() - i > 1 {
            let dim = or_default_spec(usize_of(a[i + 1]), 128);
            vector_field_advances(a, algorithm, dim, distance_metric, i + 2);
        } else if opt == "DISTANCE_METRIC"@ && a.len() - i > 1 {
            vector_field_advances(a, algorithm, dim, upper_word(a[i + 1]), i + 2);
        } else if opt == "TYPE"@ || opt == "FLOAT32"@ || opt == "M"@ || opt == "EF_CONSTRUCTION"@ {
            if a.len() - i > 1 {
                vector_field_advances(a, algorithm, dim, distance_metric, i + 2);
            }
        } else if opt == "HNSW"@ || opt == "FLAT"@ || usize_of(a[i]) is Some {
            vector_field_advances(a, algorithm, dim, distance_metric, i + 1);
        }
    }
}

/// How a field of the kind that `kind` names is indexed, by the options from `i` on, and where
/// those end; no kind at all where the word names none.
pub open spec fn field_type_spec(
    a: Seq<Seq<u8>>,
    env: &ParseEnv,
    kind: Seq<char>,
    i: int,
) -> (Option<FieldTypeView>, int) {
    if kind == "TEXT"@ {
        let r = text_field(a, env, Double { bits: 0x3ff0_0000_0000_0000 }, false, false, i);
        (Some(r.0), r.1)
    } else if kind == "NUMERIC"@ {
        if i < a.len() && upper_word(a[i]) == "SORTABLE"@ {
            (Some(FieldTypeView::Numeric { sortable: true }), i + 1)
        } else {
            (Some(FieldTypeView::Numeric { sortable: false }), i)
        }
    } else if kind == "TAG"@ {
        let r = tag_field(a, ',', false, i);
        (Some(r.0), r.1)
    } else if kind == "VECTOR"@ {
        let r = if i < a.len() {
            vector_field(a, lossy_text(a[i]), 128, "COSINE"@, i + 1)
        } else {
            vector_field(a, "HNSW"@, 128, "COSINE"@, i)
        };
        (Some(r.0), r.1)
    } else {
        (None, i)
    }
}

pub proof fn field_type_advances(a: Seq<Seq<u8>>, env: &ParseEnv, kind: Seq<char>, i: int)
    ensures
        i <= a.len() ==> i <= field_type_spec(a, env, kind, i).1 <= a.len(),
{
    text_field_advances(a, env, Double { bits: 0x3ff0_0000_0000_0000 }, false, false, i);
    tag_field_advances(a, ',', false, i);
    if i < a.len() {
        vector_field_advances(a, lossy_text(a[i]), 128, "COSINE"@, i + 1);
    } else {
        vector_field_advances(a, "HNSW"@, 128, "COSINE"@, i);
    }
}

pub open spec fn field_type_view(r: (Option<FieldType>, usize)) -> (Option<FieldTypeView>, int) {
    (
        match r.0 {
            Some(t) => Some(t@),
            None => None,
        },
        r.1 as int,
    )
}

#[verifier::loop_isolation(false)]
fn read_text_field(args: &Vec<Bytes>, env: &ParseEnv, from: usize) -> (r: (FieldType, usize))
    requires
        from <= args.len(),
    ensures
        (r.0@, r.1 as int) == text_field(
            contents(args@),
            env,
            Double { bits: 0x3ff0_0000_0000_0000 },
            false,
            false,
            from as int,
        ),
{
    let mut weight: Double = Double { bits: 0x3ff0_0000_0000_0000 };
    let mut sortable: bool = false;
    let mut nostem: bool = false;
    let mut i: usize = from;
    let ghost goal = text_field(contents(args@), env, weight, sortable, nostem, i as int);
    while i < args.len()
        invariant
            i <= args.len(),
            text_field(contents(args@), env, weight, sortable, nostem, i as int) == goal,
        decreases args.len() - i,
    {
        let opt: String = upper(&args[i]);
        if same_text(&opt, "WEIGHT") && args.len() - i > 1 {
            weight = or_one(env.double(args[i + 1].as_ref()));
            i = i + 2;
        } else if same_text(&opt, "SORTABLE") {
            sortable = true;
            i = i + 1;
        } else if same_text(&opt, "NOSTEM") {
            nostem = true;
            i = i + 1;
        } else {
            break;
        }
    }
    (FieldType::Text { weight, sortable, nostem }, i)
}

#[verifier::loop_isolation(false)]
fn read_tag_field(args: &Vec<Bytes>, from: usize) -> (r: (FieldType, usize))
    requires
        from <= args.len(),
    ensures
        (r.0@, r.1 as int) == tag_field(contents(args@), ',', false, from as int),
{
    let mut separator: char = ',';
    let mut casesensitive: bool = false;
    let mut i: usize = from;
    let ghost goal = tag_field(contents(args@), separator, casesensitive, i as int);
    while i < args.len()
        invariant
            i <= args.len(),
            tag_field(contents(args@), separator, casesensitive, i as int) == goal,
        decreases args.len() - i,
    {
        let opt: String = upper(&args[i]);
        if same_text(&opt, "SEPARATOR") && args.len() - i > 1 {
            separator = read_separator(&args[i + 1]);
            i = i + 2;
        } else if same_text(&opt, "CASESENSITIVE") {
            casesensitive = true;
            i = i + 1;
        } else {
            break;
        }
    }
    (FieldType::Tag { separator, casesensitive }, i)
}

#[verifier::loop_isolation(false)]
fn read_vector_field(args: &Vec<Bytes>, algorithm: String, from: usize) -> (r: (FieldType, usize))
    requires
        from <= args.len(),
    ensures
        (r.0@, r.1 as int) == vector_field(
            contents(args@),
            algorithm@,
            128,
            "COSINE"@,
            from as int,
        ),
{
    let mut dim: usize = 128;
    let mut distance_metric: String = "COSINE".to_owned();
    let mut i: usize = from;
    let ghost goal = vector_field(contents(args@), algorithm@, dim, distance_metric@, i as int);
    while i < args.len()
        invariant
            i <= args.len(),
            vector_field(contents(args@), algorithm@, dim, distance_metric@, i as int) == goal,
        decreases args.len() - i,
    {
        let opt: String = upper(&args[i]);
        if same_text(&opt, "DIM") && args.len() - i > 1 {
            dim = or_default(read_usize(args[i + 1].as_ref()), 128);
            i = i + 2;
        } else if same_text(&opt, "DISTANCE_METRIC") && args.len() - i > 1 {
            distance_metric = upper(&args[i + 1]);
            i = i + 2;
        } else if same_text(&opt, "TYPE") || same_text(&opt, "FLOAT32") || same_text(&opt, "M")
            || same_text(&opt, "EF_CONSTRUCTION") {
            if args.len() - i > 1 {
                i = i + 2;
            } else {
                i = i + 1;
                break;
            }
        } else if same_text(&opt, "HNSW") || same_text(&opt, "FLAT") || read_usize(
            args[i].as_ref(),
        ).is_some() {
            i = i + 1;
        } else {
            break;
        }
    }
    (FieldType::Vector { dim, distance_metric, algorithm }, i)
}

fn field_type(args: &Vec<Bytes>, env: &ParseEnv, kind: &str, from: usize) -> (r: (
    Option<FieldType>,
    usize,
))
    requires
        from <= args.len(),
    ensures
        field_type_view(r) == field_type_spec(contents(args@), env, kind@, from as int),
        from <= r.1 <= args.len(),
{
    proof {
        field_type_advances(contents(args@), env, kind@, from as int);
    }
    if same_text(kind, "TEXT") {
        let r: (FieldType, usize) = read_text_field(args, env, from);
        (Some(r.0), r.1)
    } else if same_text(kind, "NUMERIC") {
        if from < args.len() && same_text(upper(&args[from]).as_str(), "SORTABLE") {
            (Some(FieldType::Numeric { sortable: true }), from + 1)
        } else {
            (Some(FieldType::Numeric { sortable: false }), from)
        }
    } else if same_text(kind, "TAG") {
        let r: (FieldType, usize) = read_tag_field(args, from);
        (Some(r.0), r.1)
    } else if same_text(kind, "VECTOR") {
        let r: (FieldType, usize) = if from < args.len() {
            read_vector_field(args, lossy(&args[from]), from + 1)
        } else {
            read_vector_field(args, "HNSW".to_owned(), from)
        };
        (Some(r.0), r.1)
    } else {
        (None, from)
    }
}

/// What `FT.CREATE` makes of its arguments from `i` on, given what came before them.
pub open spec fn create_options(
    a: Seq<Seq<u8>>,
    on_type: Seq<char>,
    prefixes: Seq<Seq<char>>,
    i: int,
) -> (Seq<char>, Seq<Seq<char>>, int)
    decreases a.len() - i,
{
    if i >= a.len() {
        (on_type, prefixes, i)
    } else {
        let opt = upper_word(a[i]);
        if opt == "ON"@ && a.len() - i > 1 {
            let on_type = upper_word(a[i + 1]);
            let i: int = i + 2;
            create_options(a, on_type, prefixes, i)
        } else if opt == "PREFIX"@ && a.len() - i > 1 {
            let count: usize = or_default_spec(usize_of(a[i + 1]), 1);
            let stop: int = stop_index(a, i + 2, count);
            let prefixes = prefixes + lossy_texts(a.subrange(i + 2, stop));
            let i: int = stop;
            create_options(a, on_type, prefixes, i)
        } else if opt == "SCHEMA"@ {
            let i: int = i + 1;
            (on_type, prefixes, i)
        } else {
            let i: int = i + 1;
            create_options(a, on_type, prefixes, i)
        }
    }
}

/// What `FT.CREATE` makes of its arguments from `i` on, given what came before them.
pub open spec fn create_fields(
    a: Seq<Seq<u8>>,
    env: &ParseEnv,
    i: int,
    fields: Seq<(Seq<char>, FieldTypeView)>,
    schema_fields: Seq<SchemaFieldView>,
) -> (Seq<(Seq<char>, FieldTypeView)>, Seq<SchemaFieldView>)
    decreases a.len() - i,
{
    if i >= a.len() {
        (fields, schema_fields)
    } else {
        let identifier = lossy_text(a[i]);
        let i: int = i + 1;
        if i >= a.len() {
            (fields, schema_fields)
        } else {
            let alias = identifier;
            let word = upper_word(a[i]);
            let (alias, i) = if word == "AS"@ {
                if a.len() - i > 1 {
                    let alias = lossy_text(a[i + 1]);
                    let i: int = i + 2;
                    (alias, i)
                } else {
                    (alias, i)
                }
            } else {
                let alias = short_alias_spec(alias);
                (alias, i)
            };
            if i >= a.len() {
                (fields, schema_fields)
            } else {
                let kind = upper_word(a[i]);
                proof {
                    field_type_advances(a, env, kind, i + 1);
                }
                let found = field_type_spec(a, env, kind, i + 1);
                let i: int = found.1;
                match found.0 {
                    Some(ftype) => {
                        let fields = put(fields, alias, ftype);
                        let fields = if alias != identifier {
                            let fields = put(fields, identifier, ftype);
                            fields
                        } else {
                            fields
                        };
                        let schema_fields = schema_fields.push(SchemaFieldView {
                            identifier,
                            alias,
                            field_type: ftype,
                        });
                        create_fields(a, env, i, fields, schema_fields)
                    },
                    None => {
                        create_fields(a, env, i, fields, schema_fields)
                    },
                }
            }
        }
    }
}

/// What `FT.CREATE` builds from its arguments.
pub open spec fn ft_create_spec(a: Seq<Seq<u8>>, env: &ParseEnv) -> Result<CommandView, Seq<char>> {
    if a.len() < 4 {
        Err("wrong number of arguments for 'ft.create' command"@)
    } else {
        let on_type = "HASH"@;
        let prefixes = Seq::<Seq<char>>::empty();
        let i: int = 2;
        let (on_type, prefixes, i) = create_options(a, on_type, prefixes, i);
        let fields = Seq::<(Seq<char>, FieldTypeView)>::empty();
        let schema_fields = Seq::<SchemaFieldView>::empty();
        let (fields, schema_fields) = create_fields(a, env, i, fields, schema_fields);
        Ok(CommandView::FtCreate {
            index: lossy_text(a[1]),
            on_type,
            prefixes,
            fields,
            schema_fields,
        })
    }
}

#[verifier::loop_isolation(false)]
pub(crate) fn build_ft_create(args: &Vec<Bytes>, env: &ParseEnv) -> (r: Result<Command, String>)
    requires
        args.len() > 0,
    ensures
        built(r) == ft_create_spec(contents(args@), env),
{
    if args.len() < 4 {
        return Err("wrong number of arguments for 'ft.create' command".to_owned());
    }
    let mut on_type: String = "HASH".to_owned();
    let mut prefixes: Vec<String> = no_texts();
    let mut i: usize = 2;
    let ghost goal_create_options = create_options(
        contents(args@),
        on_type@,
        texts(prefixes@),
        i as int,
    );
    while i < args.len()
        invariant
            i <= args.len(),
            create_options(
                contents(args@),
                on_type@,
                texts(prefixes@),
                i as int,
            ) == goal_create_options,
        decreases args.len() - i,
    {
        let opt: String = upper(&args[i]);
        if same_text(&opt, "ON") && args.len() - i > 1 {
            on_type = upper(&args[i + 1]);
            i = i + 2;
        } else if same_text(&opt, "PREFIX") && args.len() - i > 1 {
            let count: usize = or_default(read_usize(args[i + 1].as_ref()), 1);
            let stop: usize = stop_at(args, i + 2, count);
            prefixes = append_texts(prefixes, args, i + 2, stop);
            i = stop;
        } else if same_text(&opt, "SCHEMA") {
            i = i + 1;
            break;
        } else {
            i = i + 1;
        }
    }
    let mut fields: FieldMap = FieldMap::new();
    let mut schema_fields: Vec<SchemaField> = no_schema();
    let ghost goal_create_fields = create_fields(
        contents(args@),
        env,
        i as int,
        fields@,
        schema_views(schema_fields@),
    );
    while i < args.len()
        invariant
            i <= args.len(),
            create_fields(
                contents(args@),
                env,
                i as int,
                fields@,
                schema_views(schema_fields@),
            ) == goal_create_fields,
        decreases args.len() - i,
    {
        let identifier: String = lossy(&args[i]);
        i = i + 1;
        if i >= args.len() {
            break;
        }
        let mut alias: String = identifier.clone();
        let word: String = upper(&args[i]);
        if same_text(&word, "AS") {
            if args.len() - i > 1 {
                alias = lossy(&args[i + 1]);
                i = i + 2;
            }
        } else {
            alias = short_alias(alias.as_str());
        }
        if i >= args.len() {
            break;
        }
        let kind: String = upper(&args[i]);
        let found: (Option<FieldType>, usize) = field_type(args, env, kind.as_str(), i + 1);
        i = found.1;
        match found.0 {
            Some(ftype) => {
                fields.insert(alias.clone(), copy_field_type(&ftype));
                if !same_text(&alias, &identifier) {
                    fields.insert(identifier.clone(), copy_field_type(&ftype));
                }
                push_schema_field(
                    &mut schema_fields,
                    SchemaField { identifier, alias, field_type: ftype },
                );
            },
            None => {
            },
        }
    }
    Ok(Command::FtCreate { index: lossy(&args[1]), on_type, prefixes, fields, schema_fields })
}

/// What `FT.SEARCH` makes of its arguments from `i` on, given what came before them.
pub open spec fn search_params(
    a: Seq<Seq<u8>>,
    params: Seq<(Seq<char>, Seq<u8>)>,
    i: int,
    left: int,
) -> (Seq<(Seq<char>, Seq<u8>)>, int, int)
    decreases left,
{
    if left <= 0 || a.len() - i <= 1 {
        (params, i, left)
    } else {
        let params = put(params, lossy_text(a[i]), a[i + 1]);
        let i: int = i + 2;
        let left: int = left - 1;
        search_params(a, params, i, left)
    }
}

pub proof fn search_params_advances(
    a: Seq<Seq<u8>>,
    params: Seq<(Seq<char>, Seq<u8>)>,
    i: int,
    left: int,
)
    ensures
        i <= a.len() ==> i <= search_params(a, params, i, left).1 <= a.len(),
    decreases left,
{
    if left > 0 && a.len() - i > 1 {
        let params = put(params, lossy_text(a[i]), a[i + 1]);
        let i: int = i + 2;
        let left: int = left - 1;
        search_params_advances(a, params, i, left);
    }
}

/// What `FT.SEARCH` makes of its arguments from `i` on, given what came before them.
pub open spec fn search_options(
    a: Seq<Seq<u8>>,
    offset: usize,
    limit: usize,
    nocontent: bool,
    sortby: Option<(Seq<char>, bool)>,
    return_fields: Option<Seq<Seq<char>>>,
    params: Seq<(Seq<char>, Seq<u8>)>,
    i: int,
) -> (usize, usize, bool, Option<(Seq<char>, bool)>, Option<Seq<Seq<char>>>, Seq<(Seq<char>, Seq<u8>)>)
    decreases a.len() - i,
{
    if i >= a.len() {
        (offset, limit, nocontent, sortby, return_fields, params)
    } else {
        let opt = upper_word(a[i]);
        if opt == "NOCONTENT"@ {
            let nocontent = true;
            let i: int = i + 1;
            search_options(a, offset, limit, nocontent, sortby, return_fields, params, i)
        } else if opt == "LIMIT"@ && a.len() - i > 2 {
            let offset: usize = or_default_spec(usize_of(a[i + 1]), 0);
            let limit: usize = or_default_spec(usize_of(a[i + 2]), 10);
            let i: int = i + 3;
            search_options(a, offset, limit, nocontent, sortby, return_fields, params, i)
        } else if opt == "SORTBY"@ && a.len() - i > 1 {
            let field = lossy_text(a[i + 1]);
            let asc = true;
            let i: int = i + 2;
            let (asc, i) = if i < a.len() {
                let dir = upper_word(a[i]);
                if dir == "DESC"@ {
                    let asc = false;
                    let i: int = i + 1;
                    (asc, i)
                } else if dir == "ASC"@ {
                    let i: int = i + 1;
                    (asc, i)
                } else {
                    (asc, i)
                }
            } else {
                (asc, i)
            };
            let sortby = Some((field, asc));
            search_options(a, offset, limit, nocontent, sortby, return_fields, params, i)
        } else if opt == "RETURN"@ && a.len() - i > 1 {
            let count: usize = or_default_spec(usize_of(a[i + 1]), 0);
            let stop: int = stop_index(a, i + 2, count);
            let return_fields = Some(lossy_texts(a.subrange(i + 2, stop)));
            let i: int = stop;
            search_options(a, offset, limit, nocontent, sortby, return_fields, params, i)
        } else if opt == "PARAMS"@ && a.len() - i > 1 {
            let count: usize = or_default_spec(usize_of(a[i + 1]), 0);
            let i: int = i + 2;
            let left: int = (count / 2) as int;
            proof {
                search_params_advances(a, params, i, left);
            }
            let (params, i, left) = search_params(a, params, i, left);
            search_options(a, offset, limit, nocontent, sortby, return_fields, params, i)
        } else {
            let i: int = i + 1;
            search_options(a, offset, limit, nocontent, sortby, return_fields, params, i)
        }
    }
}

/// What `FT.SEARCH` builds from its arguments.
pub open spec fn ft_search_spec(a: Seq<Seq<u8>>) -> Result<CommandView, Seq<char>> {
    if a.len() < 3 {
        Err("wrong number of arguments for 'ft.search' command"@)
    } else {
        let offset: usize = 0;
        let limit: usize = 10;
        let nocontent = false;
        let sortby: Option<(Seq<char>, bool)> = None;
        let return_fields: Option<Seq<Seq<char>>> = None;
        let params = Seq::<(Seq<char>, Seq<u8>)>::empty();
        let i: int = 3;
        let (offset, limit, nocontent, sortby, return_fields, params) = search_options(
            a,
            offset,
            limit,
            nocontent,
            sortby,
            return_fields,
            params,
            i,
        );
        Ok(CommandView::FtSearch {
            index: lossy_text(a[1]),
            query: lossy_text(a[2]),
            options: SearchOptionsView { offset, limit, nocontent, sortby, return_fields, params },
        })
    }
}

#[verifier::loop_isolation(false)]
pub(crate) fn build_ft_search(args: &Vec<Bytes>) -> (r: Result<Command, String>)
    requires
        args.len() > 0,
    ensures
        built(r) == ft_search_spec(contents(args@)),
{
    if args.len() < 3 {
        return Err("wrong number of arguments for 'ft.search' command".to_owned());
    }
    let mut offset: usize = 0;
    let mut limit: usize = 10;
    let mut nocontent: bool = false;
    let mut sortby: Option<(String, bool)> = None;
    let mut return_fields: Option<Vec<String>> = None;
    let mut params: ParamMap = ParamMap::new();
    let mut i: usize = 3;
    let ghost goal_search_options = search_options(
        contents(args@),
        offset,
        limit,
        nocontent,
        sort_key_opt(sortby),
        texts_opt(return_fields),
        params@,
        i as int,
    );
    while i < args.len()
        invariant
            i <= args.len(),
            search_options(
                contents(args@),
                offset,
                limit,
                nocontent,
                sort_key_opt(sortby),
                texts_opt(return_fields),
                params@,
                i as int,
            ) == goal_search_options,
        decreases args.len() - i,
    {
        let opt: String = upper(&args[i]);
        if same_text(&opt, "NOCONTENT") {
            nocontent = true;
            i = i + 1;
        } else if same_text(&opt, "LIMIT") && args.len() - i > 2 {
            offset = or_default(read_usize(args[i + 1].as_ref()), 0);
            limit = or_default(read_usize(args[i + 2].as_ref()), 10);
            i = i + 3;
        } else if same_text(&opt, "SORTBY") && args.len() - i > 1 {
            let field: String = lossy(&args[i + 1]);
            let mut asc: bool = true;
            i = i + 2;
            if i < args.len() {
                let dir: String = upper(&args[i]);
                if same_text(&dir, "DESC") {
                    asc = false;
                    i = i + 1;
                } else if same_text(&dir, "ASC") {
                    i = i + 1;
                }
            }
            sortby = Some((field, asc));
        } else if same_text(&opt, "RETURN") && args.len() - i > 1 {
            let count: usize = or_default(read_usize(args[i + 1].as_ref()), 0);
            let stop: usize = stop_at(args, i + 2, count);
            return_fields = Some(texts_between(args, i + 2, stop));
            i = stop;
        } else if same_text(&opt, "PARAMS") && args.len() - i > 1 {
            let count: usize = or_default(read_usize(args[i + 1].as_ref()), 0);
            i = i + 2;
            let mut left: usize = count / 2;
            let ghost goal_search_params = search_params(
                contents(args@),
                params@,
                i as int,
                left as int,
            );
            let ghost from_search_params = i;
            while left > 0 && args.len() - i > 1
                invariant
                    i <= args.len(),
                    from_search_params <= i,
                    search_params(
                        contents(args@),
                        params@,
                        i as int,
                        left as int,
                    ) == goal_search_params,
                decreases left,
            {
                params.insert(lossy(&args[i]), octets_of(&args[i + 1]));
                i = i + 2;
                left = left - 1;
            }
        } else {
            i = i + 1;
        }
    }
    Ok(Command::FtSearch {
        index: lossy(&args[1]),
        query: lossy(&args[2]),
        options: SearchOptions { offset, limit, nocontent, sortby, return_fields, params },
    })
}

/// What `FT.AGGREGATE` makes of its arguments from `i` on, given what came before them.
pub open spec fn aggregate_reducers(
    a: Seq<Seq<u8>>,
    i: int,
    reducers: Seq<ReducerView>,
) -> (int, Seq<ReducerView>)
    decreases a.len() - i,
{
    if i >= a.len() {
        (i, reducers)
    } else {
        let word = upper_word(a[i]);
        if word != "REDUCE"@ {
            (i, reducers)
        } else {
            let i: int = i + 1;
            if i >= a.len() {
                (i, reducers)
            } else {
                let func = upper_word(a[i]);
                let i: int = i + 1;
                let nargs: usize = 0;
                let (nargs, i) = if i < a.len() {
                    let nargs: usize = or_default_spec(usize_of(a[i]), 0);
                    let i: int = i + 1;
                    (nargs, i)
                } else {
                    (nargs, i)
                };
                let last: int = stop_index(a, i, nargs);
                let field = first_field_spec(a, i, last);
                let i: int = last;
                let alias = lower_text(func);
                let (alias, i) = if a.len() - i > 1 {
                    let follow = upper_word(a[i]);
                    if follow == "AS"@ {
                        let alias = lossy_text(a[i + 1]);
                        let i: int = i + 2;
                        (alias, i)
                    } else {
                        (alias, i)
                    }
                } else {
                    (alias, i)
                };
                if func == "COUNT"@ {
                    let reducers = reducers.push(ReducerView::Count { alias });
                    aggregate_reducers(a, i, reducers)
                } else if func == "SUM"@ {
                    let reducers = reducers.push(ReducerView::Sum { field, alias });
                    aggregate_reducers(a, i, reducers)
                } else if func == "AVG"@ {
                    let reducers = reducers.push(ReducerView::Avg { field, alias });
                    aggregate_reducers(a, i, reducers)
                } else if func == "MIN"@ {
                    let reducers = reducers.push(ReducerView::Min { field, alias });
                    aggregate_reducers(a, i, reducers)
                } else if func == "MAX"@ {
                    let reducers = reducers.push(ReducerView::Max { field, alias });
                    aggregate_reducers(a, i, reducers)
                } else {
                    aggregate_reducers(a, i, reducers)
                }
            }
        }
    }
}

pub proof fn aggregate_reducers_advances(a: Seq<Seq<u8>>, i: int, reducers: Seq<ReducerView>)
    ensures
        i <= a.len() ==> i <= aggregate_reducers(a, i, reducers).0 <= a.len(),
    decreases a.len() - i,
{
    if i < a.len() {
        let word = upper_word(a[i]);
        if word != "REDUCE"@ {
        } else {
            let i: int = i + 1;
            if i >= a.len() {
            } else {
                let func = upper_word(a[i]);
                let i: int = i + 1;
                let nargs: usize = 0;
                let (nargs, i) = if i < a.len() {
                    let nargs: usize = or_default_spec(usize_of(a[i]), 0);
                    let i: int = i + 1;
                    (nargs, i)
                } else {
                    (nargs, i)
                };
                let last: int = stop_index(a, i, nargs);
                let field = first_field_spec(a, i, last);
                let i: int = last;
                let alias = lower_text(func);
                let (alias, i) = if a.len() - i > 1 {
                    let follow = upper_word(a[i]);
                    if follow == "AS"@ {
                        let alias = lossy_text(a[i + 1]);
                        let i: int = i + 2;
                        (alias, i)
                    } else {
                        (alias, i)
                    }
                } else {
                    (alias, i)
                };
                if func == "COUNT"@ {
                    let reducers = reducers.push(ReducerView::Count { alias });
                    aggregate_reducers_advances(a, i, reducers);
                } else if func == "SUM"@ {
                    let reducers = reducers.push(ReducerView::Sum { field, alias });
                    aggregate_reducers_advances(a, i, reducers);
                } else if func == "AVG"@ {
                    let reducers = reducers.push(ReducerView::Avg { field, alias });
                    aggregate_reducers_advances(a, i, reducers);
                } else if func == "MIN"@ {
                    let reducers = reducers.push(ReducerView::Min { field, alias });
                    aggregate_reducers_advances(a, i, reducers);
                } else if func == "MAX"@ {
                    let reducers = reducers.push(ReducerView::Max { field, alias });
                    aggregate_reducers_advances(a, i, reducers);
                } else {
                    aggregate_reducers_advances(a, i, reducers);
                }
            }
        }
    }
}

/// What `FT.AGGREGATE` makes of its arguments from `i` on, given what came before them.
pub open spec fn aggregate_sort(
    a: Seq<Seq<u8>>,
    i: int,
    sort_fields: Seq<(Seq<char>, bool)>,
    left: int,
) -> (int, Seq<(Seq<char>, bool)>, int)
    decreases left,
{
    if left <= 0 || i >= a.len() {
        (i, sort_fields, left)
    } else {
        let field = field_text(a[i]);
        let i: int = i + 1;
        let left: int = left - 1;
        let asc = true;
        let (asc, i, left) = if left > 0 && i < a.len() {
            let dir = upper_word(a[i]);
            if dir == "DESC"@ {
                let asc = false;
                let i: int = i + 1;
                let left: int = left - 1;
                (asc, i, left)
            } else if dir == "ASC"@ {
                let i: int = i + 1;
                let left: int = left - 1;
                (asc, i, left)
            } else {
                (asc, i, left)
            }
        } else {
            (asc, i, left)
        };
        let sort_fields = sort_fields.push((field, asc));
        aggregate_sort(a, i, sort_fields, left)
    }
}

pub proof fn aggregate_sort_advances(
    a: Seq<Seq<u8>>,
    i: int,
    sort_fields: Seq<(Seq<char>, bool)>,
    left: int,
)
    ensures
        i <= a.len() ==> i <= aggregate_sort(a, i, sort_fields, left).0 <= a.len(),
    decreases left,
{
    if left > 0 && i < a.len() {
        let field = field_text(a[i]);
        let i: int = i + 1;
        let left: int = left - 1;
        let asc = true;
        let (asc, i, left) = if left > 0 && i < a.len() {
            let dir = upper_word(a[i]);
            if dir == "DESC"@ {
                let asc = false;
                let i: int = i + 1;
                let left: int = left - 1;
                (asc, i, left)
            } else if dir == "ASC"@ {
                let i: int = i + 1;
                let left: int = left - 1;
                (asc, i, left)
            } else {
                (asc, i, left)
            }
        } else {
            (asc, i, left)
        };
        let sort_fields = sort_fields.push((field, asc));
        aggregate_sort_advances(a, i, sort_fields, left);
    }
}

/// What `FT.AGGREGATE` makes of its arguments from `i` on, given what came before them.
pub open spec fn aggregate_options(
    a: Seq<Seq<u8>>,
    load_fields: Seq<Seq<char>>,
    stages: Seq<AggregateStageView>,
    i: int,
) -> (Seq<Seq<char>>, Seq<AggregateStageView>)
    decreases a.len() - i,
{
    if i >= a.len() {
        (load_fields, stages)
    } else {
        let opt = upper_word(a[i]);
        if opt == "LOAD"@ && a.len() - i > 1 {
            let count: usize = or_default_spec(usize_of(a[i + 1]), 0);
            let stop: int = stop_index(a, i + 2, count);
            let load_fields = load_fields + field_texts(a.subrange(i + 2, stop));
            let i: int = stop;
            aggregate_options(a, load_fields, stages, i)
        } else if opt == "GROUPBY"@ && a.len() - i > 1 {
            let count: usize = or_default_spec(usize_of(a[i + 1]), 0);
            let stop: int = stop_index(a, i + 2, count);
            let group_fields = field_texts(a.subrange(i + 2, stop));
            let i: int = stop;
            let reducers = Seq::<ReducerView>::empty();
            proof {
                aggregate_reducers_advances(a, i, reducers);
            }
            let (i, reducers) = aggregate_reducers(a, i, reducers);
            let stages = stages.push(AggregateStageView::Group(GroupByStageView {
                fields: group_fields,
                reducers,
            }));
            aggregate_options(a, load_fields, stages, i)
        } else if opt == "APPLY"@ && a.len() - i > 1 {
            let expr = lossy_text(a[i + 1]);
            let i: int = i + 2;
            let alias = expr;
            let (alias, i) = if a.len() - i > 1 {
                let follow = upper_word(a[i]);
                if follow == "AS"@ {
                    let alias = lossy_text(a[i + 1]);
                    let i: int = i + 2;
                    (alias, i)
                } else {
                    (alias, i)
                }
            } else {
                (alias, i)
            };
            let stages = stages.push(AggregateStageView::Apply(ApplyStageView { expr, alias }));
            aggregate_options(a, load_fields, stages, i)
        } else if opt == "SORTBY"@ && a.len() - i > 1 {
            let nargs: usize = or_default_spec(usize_of(a[i + 1]), 0);
            let i: int = i + 2;
            let sort_fields = Seq::<(Seq<char>, bool)>::empty();
            let left: int = (nargs) as int;
            proof {
                aggregate_sort_advances(a, i, sort_fields, left);
            }
            let (i, sort_fields, left) = aggregate_sort(a, i, sort_fields, left);
            let stages = stages.push(AggregateStageView::Sort(SortByStageView {
                fields: sort_fields,
                max: None,
            }));
            aggregate_options(a, load_fields, stages, i)
        } else if opt == "LIMIT"@ && a.len() - i > 2 {
            let stages = stages.push(AggregateStageView::Limit {
                offset: or_default_spec(usize_of(a[i + 1]), 0),
                num: or_default_spec(usize_of(a[i + 2]), 10),
            });
            let i: int = i + 3;
            aggregate_options(a, load_fields, stages, i)
        } else if opt == "FILTER"@ && a.len() - i > 1 {
            let stages = stages.push(AggregateStageView::Filter(lossy_text(a[i + 1])));
            let i: int = i + 2;
            aggregate_options(a, load_fields, stages, i)
        } else {
            let i: int = i + 1;
            aggregate_options(a, load_fields, stages, i)
        }
    }
}

/// What `FT.AGGREGATE` builds from its arguments.
pub open spec fn ft_aggregate_spec(a: Seq<Seq<u8>>) -> Result<CommandView, Seq<char>> {
    if a.len() < 3 {
        Err("wrong number of arguments for 'ft.aggregate' command"@)
    } else {
        let load_fields = Seq::<Seq<char>>::empty();
        let stages = Seq::<AggregateStageView>::empty();
        let i: int = 3;
        let (load_fields, stages) = aggregate_options(a, load_fields, stages, i);
        Ok(CommandView::FtAggregate {
            index: lossy_text(a[1]),
            query: lossy_text(a[2]),
            options: AggregateOptionsView { load_fields, stages },
        })
    }
}

#[verifier::loop_isolation(false)]
pub(crate) fn build_ft_aggregate(args: &Vec<Bytes>) -> (r: Result<Command, String>)
    requires
        args.len() > 0,
    ensures
        built(r) == ft_aggregate_spec(contents(args@)),
{
    if args.len() < 3 {
        return Err("wrong number of arguments for 'ft.aggregate' command".to_owned());
    }
    let mut load_fields: Vec<String> = no_texts();
    let mut stages: Vec<AggregateStage> = no_stages();
    let mut i: usize = 3;
    let ghost goal_aggregate_options = aggregate_options(
        contents(args@),
        texts(load_fields@),
        stage_views(stages@),
        i as int,
    );
    while i < args.len()
        invariant
            i <= args.len(),
            aggregate_options(
                contents(args@),
                texts(load_fields@),
                stage_views(stages@),
                i as int,
            ) == goal_aggregate_options,
        decreases args.len() - i,
    {
        let opt: String = upper(&args[i]);
        if same_text(&opt, "LOAD") && args.len() - i > 1 {
            let count: usize = or_default(read_usize(args[i + 1].as_ref()), 0);
            let stop: usize = stop_at(args, i + 2, count);
            load_fields = append_fields(load_fields, args, i + 2, stop);
            i = stop;
        } else if same_text(&opt, "GROUPBY") && args.len() - i > 1 {
            let count: usize = or_default(read_usize(args[i + 1].as_ref()), 0);
            let stop: usize = stop_at(args, i + 2, count);
            let group_fields: Vec<String> = fields_between(args, i + 2, stop);
            i = stop;
            let mut reducers: Vec<Reducer> = no_reducers();
            let ghost goal_aggregate_reducers = aggregate_reducers(
                contents(args@),
                i as int,
                reducer_views(reducers@),
            );
            let ghost from_aggregate_reducers = i;
            while i < args.len()
                invariant
                    i <= args.len(),
                    from_aggregate_reducers <= i,
                    aggregate_reducers(
                        contents(args@),
                        i as int,
                        reducer_views(reducers@),
                    ) == goal_aggregate_reducers,
                decreases args.len() - i,
            {
                let word: String = upper(&args[i]);
                if !same_text(&word, "REDUCE") {
                    break;
                }
                i = i + 1;
                if i >= args.len() {
                    break;
                }
                let func: String = upper(&args[i]);
                i = i + 1;
                let mut nargs: usize = 0;
                if i < args.len() {
                    nargs = or_default(read_usize(args[i].as_ref()), 0);
                    i = i + 1;
                }
                let last: usize = stop_at(args, i, nargs);
                let field: String = first_field(args, i, last);
                i = last;
                let mut alias: String = to_lower(func.as_str());
                if args.len() - i > 1 {
                    let follow: String = upper(&args[i]);
                    if same_text(&follow, "AS") {
                        alias = lossy(&args[i + 1]);
                        i = i + 2;
                    }
                }
                if same_text(&func, "COUNT") {
                    push_reducer(&mut reducers, Reducer::Count { alias });
                } else if same_text(&func, "SUM") {
                    push_reducer(&mut reducers, Reducer::Sum { field, alias });
                } else if same_text(&func, "AVG") {
                    push_reducer(&mut reducers, Reducer::Avg { field, alias });
                } else if same_text(&func, "MIN") {
                    push_reducer(&mut reducers, Reducer::Min { field, alias });
                } else if same_text(&func, "MAX") {
                    push_reducer(&mut reducers, Reducer::Max { field, alias });
                }
            }
            push_stage(
                &mut stages,
                AggregateStage::Group(GroupByStage { fields: group_fields, reducers }),
            );
        } else if same_text(&opt, "APPLY") && args.len() - i > 1 {
            let expr: String = lossy(&args[i + 1]);
            i = i + 2;
            let mut alias: String = expr.clone();
            if args.len() - i > 1 {
                let follow: String = upper(&args[i]);
                if same_text(&follow, "AS") {
                    alias = lossy(&args[i + 1]);
                    i = i + 2;
                }
            }
            push_stage(&mut stages, AggregateStage::Apply(ApplyStage { expr, alias }));
        } else if same_text(&opt, "SORTBY") && args.len() - i > 1 {
            let nargs: usize = or_default(read_usize(args[i + 1].as_ref()), 0);
            i = i + 2;
            let mut sort_fields: Vec<(String, bool)> = no_sort_keys();
            let mut left: usize = nargs;
            let ghost goal_aggregate_sort = aggregate_sort(
                contents(args@),
                i as int,
                sort_keys(sort_fields@),
                left as int,
            );
            let ghost from_aggregate_sort = i;
            while left > 0 && i < args.len()
                invariant
                    i <= args.len(),
                    from_aggregate_sort <= i,
                    aggregate_sort(
                        contents(args@),
                        i as int,
                        sort_keys(sort_fields@),
                        left as int,
                    ) == goal_aggregate_sort,
                decreases left,
            {
                let field: String = field_name(&args[i]);
                i = i + 1;
                left = left - 1;
                let mut asc: bool = true;
                if left > 0 && i < args.len() {
                    let dir: String = upper(&args[i]);
                    if same_text(&dir, "DESC") {
                        asc = false;
                        i = i + 1;
                        left = left - 1;
                    } else if same_text(&dir, "ASC") {
                        i = i + 1;
                        left = left - 1;
                    }
                }
                push_sort_key(&mut sort_fields, field, asc);
            }
            push_stage(
                &mut stages,
                AggregateStage::Sort(SortByStage { fields: sort_fields, max: None }),
            );
        } else if same_text(&opt, "LIMIT") && args.len() - i > 2 {
            push_stage(
                &mut stages,
                AggregateStage::Limit {
                    offset: or_default(read_usize(args[i + 1].as_ref()), 0),
                    num: or_default(read_usize(args[i + 2].as_ref()), 10),
                },
            );
            i = i + 3;
        } else if same_text(&opt, "FILTER") && args.len() - i > 1 {
            push_stage(&mut stages, AggregateStage::Filter(lossy(&args[i + 1])));
            i = i + 2;
        } else {
            i = i + 1;
        }
    }
    Ok(Command::FtAggregate {
        index: lossy(&args[1]),
        query: lossy(&args[2]),
        options: AggregateOptions { load_fields, stages },
    })
}

/// What `FT.INFO` builds from its arguments.
pub open spec fn ft_info_spec(a: Seq<Seq<u8>>) -> Result<CommandView, Seq<char>> {
    if a.len() != 2 {
        Err("wrong number of arguments for 'ft.info' command"@)
    } else {
        Ok(CommandView::FtInfo(lossy_text(a[1])))
    }
}

pub(crate) fn build_ft_info(args: &Vec<Bytes>) -> (r: Result<Command, String>)
    requires
        args.len() > 0,
    ensures
        built(r) == ft_info_spec(contents(args@)),
{
    if args.len() != 2 {
        return Err("wrong number of arguments for 'ft.info' command".to_owned());
    }
    Ok(Command::FtInfo(lossy(&args[1])))
}

/// What `FT.DROPINDEX` builds from its arguments.
pub open spec fn ft_dropindex_spec(a: Seq<Seq<u8>>) -> Result<CommandView, Seq<char>> {
    if a.len() < 2 {
        Err("wrong number of arguments for 'ft.dropindex' command"@)
    } else if a.len() >= 3 {
        let word = upper_word(a[2]);
        Ok(CommandView::FtDropIndex { index: lossy_text(a[1]), dd: word == "DD"@ })
    } else {
        Ok(CommandView::FtDropIndex { index: lossy_text(a[1]), dd: false })
    }
}

pub(crate) fn build_ft_dropindex(args: &Vec<Bytes>) -> (r: Result<Command, String>)
    requires
        args.len() > 0,
    ensures
        built(r) == ft_dropindex_spec(contents(args@)),
{
    if args.len() < 2 {
        return Err("wrong number of arguments for 'ft.dropindex' command".to_owned());
    }
    if args.len() >= 3 {
        let word: String = upper(&args[2]);
        Ok(Command::FtDropIndex { index: lossy(&args[1]), dd: same_text(&word, "DD") })
    } else {
        Ok(Command::FtDropIndex { index: lossy(&args[1]), dd: false })
    }
}

/// What `FT.EXPLAIN` builds from its arguments.
pub open spec fn ft_explain_spec(a: Seq<Seq<u8>>) -> Result<CommandView, Seq<char>> {
    if a.len() != 3 {
        Err("wrong number of arguments for 'ft.explain' command"@)
    } else {
        Ok(CommandView::FtExplain { index: lossy_text(a[1]), query: lossy_text(a[2]) })
    }
}

pub(crate) fn build_ft_explain(args: &Vec<Bytes>) -> (r: Result<Command, String>)
    requires
        args.len() > 0,
    ensures
        built(r) == ft_explain_spec(contents(args@)),
{
    if args.len() != 3 {
        return Err("wrong number of arguments for 'ft.explain' command".to_owned());
    }
    Ok(Command::FtExplain { index: lossy(&args[1]), query: lossy(&args[2]) })
}

/// What `FT.ADD` makes of its arguments from `i` on, given what came before them.
pub open spec fn add_options(a: Seq<Seq<u8>>, i: int) -> int
    decreases a.len() - i,
{
    if i >= a.len() {
        i
    } else {
        let word = upper_word(a[i]);
        let i: int = i + 1;
        if word == "FIELDS"@ {
            i
        } else {
            add_options(a, i)
        }
    }
}

/// What `FT.ADD` makes of its arguments from `i` on, given what came before them.
pub open spec fn add_fields(
    a: Seq<Seq<u8>>,
    fields: Seq<(Seq<char>, Seq<char>)>,
    i: int,
) -> Seq<(Seq<char>, Seq<char>)>
    decreases a.len() - i,
{
    if a.len() - i <= 1 {
        fields
    } else {
        let fields = fields.push((lossy_text(a[i]), lossy_text(a[i + 1])));
        let i: int = i + 2;
        add_fields(a, fields, i)
    }
}

/// What `FT.ADD` builds from its arguments.
pub open spec fn ft_add_spec(a: Seq<Seq<u8>>, env: &ParseEnv) -> Result<CommandView, Seq<char>> {
    if a.len() < 5 {
        Err("wrong number of arguments for 'ft.add' command"@)
    } else {
        let score = or_one_spec(double_of(env, a[3]));
        let fields = Seq::<(Seq<char>, Seq<char>)>::empty();
        let i: int = 4;
        let i = add_options(a, i);
        let fields = add_fields(a, fields, i);
        Ok(CommandView::FtAdd { index: lossy_text(a[1]), doc_id: lossy_text(a[2]), score, fields })
    }
}

#[verifier::loop_isolation(false)]
pub(crate) fn build_ft_add(args: &Vec<Bytes>, env: &ParseEnv) -> (r: Result<Command, String>)
    requires
        args.len() > 0,
    ensures
        built(r) == ft_add_spec(contents(args@), env),
{
    if args.len() < 5 {
        return Err("wrong number of arguments for 'ft.add' command".to_owned());
    }
    let score: Double = or_one(env.double(args[3].as_ref()));
    let mut fields: Vec<(String, String)> = no_text_pairs();
    let mut i: usize = 4;
    let ghost goal_add_options = add_options(contents(args@), i as int);
    while i < args.len()
        invariant
            i <= args.len(),
            add_options(contents(args@), i as int) == goal_add_options,
        decreases args.len() - i,
    {
        let word: String = upper(&args[i]);
        i = i + 1;
        if same_text(&word, "FIELDS") {
            break;
        }
    }
    let ghost goal_add_fields = add_fields(contents(args@), text_pairs(fields@), i as int);
    while args.len() - i > 1
        invariant
            i <= args.len(),
            add_fields(contents(args@), text_pairs(fields@), i as int) == goal_add_fields,
        decreases args.len() - i,
    {
        push_text_pair(&mut fields, lossy(&args[i]), lossy(&args[i + 1]));
        i = i + 2;
    }
    Ok(Command::FtAdd { index: lossy(&args[1]), doc_id: lossy(&args[2]), score, fields })
}

/// The commands on full-text search: the command that `name` stands for among them, if it is one.
pub open spec fn fulltext_command_spec(
    name: Seq<char>,
    a: Seq<Seq<u8>>,
    env: &ParseEnv,
) -> Option<Result<CommandView, Seq<char>>> {
    if name == "FT.CREATE"@ {
        Some(ft_create_spec(a, env))
    } else if name == "FT.SEARCH"@ {
        Some(ft_search_spec(a))
    } else if name == "FT.AGGREGATE"@ {
        Some(ft_aggregate_spec(a))
    } else if name == "FT.INFO"@ {
        Some(ft_info_spec(a))
    } else if name == "FT.DROPINDEX"@ {
        Some(ft_dropindex_spec(a))
    } else if name == "FT.EXPLAIN"@ {
        Some(ft_explain_spec(a))
    } else if name == "FT.ADD"@ {
        Some(ft_add_spec(a, env))
    } else {
        None
    }
}

pub(crate) fn fulltext_command(
    name: &str,
    args: &Vec<Bytes>,
    env: &ParseEnv,
) -> (r: Option<Result<Command, String>>)
    requires
        args.len() > 0,
    ensures
        built_opt(r) == fulltext_command_spec(name@, contents(args@), env),
{
    if same_text(name, "FT.CREATE") {
        Some(build_ft_create(args, env))
    } else if same_text(name, "FT.SEARCH") {
        Some(build_ft_search(args))
    } else if same_text(name, "FT.AGGREGATE") {
        Some(build_ft_aggregate(args))
    } else if same_text(name, "FT.INFO") {
        Some(build_ft_info(args))
    } else if same_text(name, "FT.DROPINDEX") {
        Some(build_ft_dropindex(args))
    } else if same_text(name, "FT.EXPLAIN") {
        Some(build_ft_explain(args))
    } else if same_text(name, "FT.ADD") {
        Some(build_ft_add(args, env))
    } else {
        None
    }
}

} // verus!
