//! Schemas, queries and aggregations of full-text search.
use vstd::prelude::*;

use crate::lists::texts;
use crate::operands::Double;
use crate::text::same_text;

verus! {

/// How a field of a document is indexed.
#[derive(Debug, Clone, PartialEq)]
pub enum FieldType {
    Text { weight: Double, sortable: bool, nostem: bool },
    Numeric { sortable: bool },
    Tag { separator: char, casesensitive: bool },
    Vector { dim: usize, distance_metric: String, algorithm: String },
}

/// What a [`FieldType`] holds.
pub enum FieldTypeView {
    Text { weight: Double, sortable: bool, nostem: bool },
    Numeric { sortable: bool },
    Tag { separator: char, casesensitive: bool },
    Vector { dim: usize, distance_metric: Seq<char>, algorithm: Seq<char> },
}

impl View for FieldType {
    type V = FieldTypeView;

    open spec fn view(&self) -> FieldTypeView {
        match *self {
            FieldType::Text { weight, sortable, nostem } => FieldTypeView::Text {
                weight,
                sortable,
                nostem,
            },
            FieldType::Numeric { sortable } => FieldTypeView::Numeric { sortable },
            FieldType::Tag { separator, casesensitive } => FieldTypeView::Tag {
                separator,
                casesensitive,
            },
            FieldType::Vector { dim, distance_metric, algorithm } => FieldTypeView::Vector {
                dim,
                distance_metric: distance_metric@,
                algorithm: algorithm@,
            },
        }
    }
}

/// One field of a schema.
#[derive(Debug, Clone, PartialEq)]
pub struct SchemaField {
    pub identifier: String,
    pub alias: String,
    pub field_type: FieldType,
}

/// What a [`SchemaField`] holds.
pub struct SchemaFieldView {
    pub identifier: Seq<char>,
    pub alias: Seq<char>,
    pub field_type: FieldTypeView,
}

impl View for SchemaField {
    type V = SchemaFieldView;

    open spec fn view(&self) -> SchemaFieldView {
        SchemaFieldView {
            identifier: self.identifier@,
            alias: self.alias@,
            field_type: self.field_type@,
        }
    }
}

/// The options of `FT.SEARCH`.
#[derive(Debug, Clone, PartialEq)]
pub struct SearchOptions {
    pub offset: usize,
    pub limit: usize,
    pub nocontent: bool,
    pub sortby: Option<(String, bool)>,
    pub return_fields: Option<Vec<String>>,
    pub params: ParamMap,
}

/// What a [`SearchOptions`] holds.
pub struct SearchOptionsView {
    pub offset: usize,
    pub limit: usize,
    pub nocontent: bool,
    pub sortby: Option<(Seq<char>, bool)>,
    pub return_fields: Option<Seq<Seq<char>>>,
    pub params: Seq<(Seq<char>, Seq<u8>)>,
}

impl View for SearchOptions {
    type V = SearchOptionsView;

    open spec fn view(&self) -> SearchOptionsView {
        SearchOptionsView {
            offset: self.offset,
            limit: self.limit,
            nocontent: self.nocontent,
            sortby: sort_key_opt(self.sortby),
            return_fields: texts_opt(self.return_fields),
            params: self.params@,
        }
    }
}

/// What is computed over a group of rows.
#[derive(Debug, Clone, PartialEq)]
pub enum Reducer {
    Count { alias: String },
    Sum { field: String, alias: String },
    Avg { field: String, alias: String },
    Min { field: String, alias: String },
    Max { field: String, alias: String },
}

/// What a [`Reducer`] holds.
pub enum ReducerView {
    Count { alias: Seq<char> },
    Sum { field: Seq<char>, alias: Seq<char> },
    Avg { field: Seq<char>, alias: Seq<char> },
    Min { field: Seq<char>, alias: Seq<char> },
    Max { field: Seq<char>, alias: Seq<char> },
}

impl View for Reducer {
    type V = ReducerView;

    open spec fn view(&self) -> ReducerView {
        match *self {
            Reducer::Count { alias } => ReducerView::Count { alias: alias@ },
            Reducer::Sum { field, alias } => ReducerView::Sum { field: field@, alias: alias@ },
            Reducer::Avg { field, alias } => ReducerView::Avg { field: field@, alias: alias@ },
            Reducer::Min { field, alias } => ReducerView::Min { field: field@, alias: alias@ },
            Reducer::Max { field, alias } => ReducerView::Max { field: field@, alias: alias@ },
        }
    }
}

/// Groups rows by fields.
#[derive(Debug, Clone, PartialEq)]
pub struct GroupByStage {
    pub fields: Vec<String>,
    pub reducers: Vec<Reducer>,
}

/// What a [`GroupByStage`] holds.
pub struct GroupByStageView {
    pub fields: Seq<Seq<char>>,
    pub reducers: Seq<ReducerView>,
}

impl View for GroupByStage {
    type V = GroupByStageView;

    open spec fn view(&self) -> GroupByStageView {
        GroupByStageView {
            fields: texts(self.fields@),
            reducers: reducer_views(self.reducers@),
        }
    }
}

/// Adds a computed field to every row.
#[derive(Debug, Clone, PartialEq)]
pub struct ApplyStage {
    pub expr: String,
    pub alias: String,
}

/// What a [`ApplyStage`] holds.
pub struct ApplyStageView {
    pub expr: Seq<char>,
    pub alias: Seq<char>,
}

impl View for ApplyStage {
    type V = ApplyStageView;

    open spec fn view(&self) -> ApplyStageView {
        ApplyStageView {
            expr: self.expr@,
            alias: self.alias@,
        }
    }
}

/// Sorts rows by fields, each ascending or not.
#[derive(Debug, Clone, PartialEq)]
pub struct SortByStage {
    pub fields: Vec<(String, bool)>,
    pub max: Option<usize>,
}

/// What a [`SortByStage`] holds.
pub struct SortByStageView {
    pub fields: Seq<(Seq<char>, bool)>,
    pub max: Option<usize>,
}

impl View for SortByStage {
    type V = SortByStageView;

    open spec fn view(&self) -> SortByStageView {
        SortByStageView {
            fields: sort_keys(self.fields@),
            max: self.max,
        }
    }
}

/// One step of an aggregation.
#[derive(Debug, Clone, PartialEq)]
pub enum AggregateStage {
    Group(GroupByStage),
    Apply(ApplyStage),
    Sort(SortByStage),
    Limit { offset: usize, num: usize },
    Filter(String),
}

/// What a [`AggregateStage`] holds.
pub enum AggregateStageView {
    Group(GroupByStageView),
    Apply(ApplyStageView),
    Sort(SortByStageView),
    Limit { offset: usize, num: usize },
    Filter(Seq<char>),
}

impl View for AggregateStage {
    type V = AggregateStageView;

    open spec fn view(&self) -> AggregateStageView {
        match *self {
            AggregateStage::Group(x) => AggregateStageView::Group(x@),
            AggregateStage::Apply(x) => AggregateStageView::Apply(x@),
            AggregateStage::Sort(x) => AggregateStageView::Sort(x@),
            AggregateStage::Limit { offset, num } => AggregateStageView::Limit { offset, num },
            AggregateStage::Filter(x) => AggregateStageView::Filter(x@),
        }
    }
}

/// The options of `FT.AGGREGATE`.
#[derive(Debug, Clone, PartialEq)]
pub struct AggregateOptions {
    pub load_fields: Vec<String>,
    pub stages: Vec<AggregateStage>,
}

/// What a [`AggregateOptions`] holds.
pub struct AggregateOptionsView {
    pub load_fields: Seq<Seq<char>>,
    pub stages: Seq<AggregateStageView>,
}

impl View for AggregateOptions {
    type V = AggregateOptionsView;

    open spec fn view(&self) -> AggregateOptionsView {
        AggregateOptionsView {
            load_fields: texts(self.load_fields@),
            stages: stage_views(self.stages@),
        }
    }
}

pub open spec fn sort_key_opt(k: Option<(String, bool)>) -> Option<(Seq<char>, bool)> {
    match k {
        Some((field, asc)) => Some((field@, asc)),
        None => None,
    }
}

pub open spec fn texts_opt(v: Option<Vec<String>>) -> Option<Seq<Seq<char>>> {
    match v {
        Some(x) => Some(texts(x@)),
        None => None,
    }
}

pub open spec fn sort_keys(s: Seq<(String, bool)>) -> Seq<(Seq<char>, bool)> {
    s.map_values(|k: (String, bool)| (k.0@, k.1))
}

pub open spec fn schema_views(s: Seq<SchemaField>) -> Seq<SchemaFieldView> {
    s.map_values(|f: SchemaField| f@)
}

pub open spec fn reducer_views(s: Seq<Reducer>) -> Seq<ReducerView> {
    s.map_values(|x: Reducer| x@)
}

pub open spec fn stage_views(s: Seq<AggregateStage>) -> Seq<AggregateStageView> {
    s.map_values(|x: AggregateStage| x@)
}

/// The place of `key` among the entries of a map, or their number where it has none.
pub open spec fn place_of<V>(entries: Seq<(Seq<char>, V)>, key: Seq<char>) -> int
    decreases entries.len(),
{
    if entries.len() == 0 {
        0
    } else if entries[0].0 == key {
        0
    } else {
        1 + place_of(entries.skip(1), key)
    }
}

/// The entries of a map once `key` stands for `value`: a key that is there keeps its place.
pub open spec fn put<V>(entries: Seq<(Seq<char>, V)>, key: Seq<char>, value: V) -> Seq<
    (Seq<char>, V),
> {
    let i = place_of(entries, key);
    if i < entries.len() {
        entries.update(i, (key, value))
    } else {
        entries.push((key, value))
    }
}

/// No key occurs twice.
pub open spec fn distinct<V>(entries: Seq<(Seq<char>, V)>) -> bool {
    forall|i: int, j: int|
        0 <= i < j < entries.len() ==> (#[trigger] entries[i]).0 != (#[trigger] entries[j]).0
}

pub proof fn lemma_place<V>(entries: Seq<(Seq<char>, V)>, key: Seq<char>)
    ensures
        0 <= place_of(entries, key) <= entries.len(),
        place_of(entries, key) < entries.len() ==> entries[place_of(entries, key)].0 == key,
        forall|j: int| 0 <= j < place_of(entries, key) ==> (#[trigger] entries[j]).0 != key,
    decreases entries.len(),
{
    if entries.len() > 0 && entries[0].0 != key {
        let t = entries.skip(1);
        lemma_place(t, key);
        assert forall|j: int| 0 <= j < place_of(entries, key) implies (
        #[trigger] entries[j]).0 != key by {
            if j > 0 {
                assert(entries[j] == t[j - 1]);
            }
        }
    }
}

/// The place of a key is the first one whose entry has it.
pub proof fn lemma_place_is<V>(entries: Seq<(Seq<char>, V)>, key: Seq<char>, i: int)
    requires
        0 <= i <= entries.len(),
        i < entries.len() ==> entries[i].0 == key,
        forall|j: int| 0 <= j < i ==> (#[trigger] entries[j]).0 != key,
    ensures
        place_of(entries, key) == i,
{
    lemma_place(entries, key);
    let p = place_of(entries, key);
    if p < i {
        assert(entries[p].0 != key);
    }
    if i < p {
        assert(entries[i].0 != key);
    }
}

/// Putting a value under a key keeps the keys distinct, makes the key stand for the value, and
/// leaves what every other key stands for.
pub proof fn law_put<V>(entries: Seq<(Seq<char>, V)>, key: Seq<char>, value: V)
    requires
        distinct(entries),
    ensures
        distinct(put(entries, key, value)),
        put(entries, key, value).contains((key, value)),
        forall|e: (Seq<char>, V)|
            e.0 != key ==> (entries.contains(e) <==> put(entries, key, value).contains(e)),
{
    lemma_place(entries, key);
    let i = place_of(entries, key);
    let after = put(entries, key, value);
    assert(after[i] == (key, value));
    assert forall|e: (Seq<char>, V)| e.0 != key implies (entries.contains(e) <==> after.contains(
        e,
    )) by {
        if entries.contains(e) {
            let k = choose|k: int| 0 <= k < entries.len() && entries[k] == e;
            assert(after[k] == e);
        }
        if after.contains(e) {
            let k = choose|k: int| 0 <= k < after.len() && after[k] == e;
            assert(entries[k] == e);
        }
    }
}

/// The fields of a schema by name.
#[derive(Debug, Clone, PartialEq)]
pub struct FieldMap {
    pub entries: Vec<(String, FieldType)>,
}

pub open spec fn field_entries(s: Seq<(String, FieldType)>) -> Seq<(Seq<char>, FieldTypeView)> {
    s.map_values(|e: (String, FieldType)| (e.0@, e.1@))
}

impl View for FieldMap {
    type V = Seq<(Seq<char>, FieldTypeView)>;

    open spec fn view(&self) -> Seq<(Seq<char>, FieldTypeView)> {
        field_entries(self.entries@)
    }
}

/// A second copy of a field type.
pub(crate) fn copy_field_type(t: &FieldType) -> (r: FieldType)
    ensures
        r@ == t@,
{
    match t {
        FieldType::Text { weight, sortable, nostem } => FieldType::Text {
            weight: *weight,
            sortable: *sortable,
            nostem: *nostem,
        },
        FieldType::Numeric { sortable } => FieldType::Numeric { sortable: *sortable },
        FieldType::Tag { separator, casesensitive } => FieldType::Tag {
            separator: *separator,
            casesensitive: *casesensitive,
        },
        FieldType::Vector { dim, distance_metric, algorithm } => FieldType::Vector {
            dim: *dim,
            distance_metric: distance_metric.clone(),
            algorithm: algorithm.clone(),
        },
    }
}

impl FieldMap {
    pub fn new() -> (r: FieldMap)
        ensures
            r@ == Seq::<(Seq<char>, FieldTypeView)>::empty(),
    {
        let entries: Vec<(String, FieldType)> = Vec::new();
        assert(field_entries(entries@) =~= Seq::<(Seq<char>, FieldTypeView)>::empty());
        FieldMap { entries }
    }

    /// Makes `name` stand for `field_type`.
    pub fn insert(&mut self, name: String, field_type: FieldType)
        ensures
            final(self)@ == put(old(self)@, name@, field_type@),
    {
        let ghost before = self@;
        let mut i: usize = 0;
        while i < self.entries.len()
            invariant
                self@ == before,
                before == old(self)@,
                i <= self.entries.len(),
                forall|j: int| 0 <= j < i ==> (#[trigger] before[j]).0 != name@,
            decreases self.entries.len() - i,
        {
            if same_text(self.entries[i].0.as_str(), name.as_str()) {
                proof {
                    lemma_place_is(before, name@, i as int);
                }
                self.entries.set(i, (name, field_type));
                assert(self@ =~= put(before, name@, field_type@));
                return;
            }
            assert(before[i as int].0 != name@);
            i = i + 1;
        }
        proof {
            lemma_place_is(before, name@, i as int);
        }
        self.entries.push((name, field_type));
        assert(self@ =~= put(before, name@, field_type@));
    }
}

/// The parameters of a query by name.
#[derive(Debug, Clone, PartialEq)]
pub struct ParamMap {
    pub entries: Vec<(String, Vec<u8>)>,
}

pub open spec fn param_entries(s: Seq<(String, Vec<u8>)>) -> Seq<(Seq<char>, Seq<u8>)> {
    s.map_values(|e: (String, Vec<u8>)| (e.0@, e.1@))
}

impl View for ParamMap {
    type V = Seq<(Seq<char>, Seq<u8>)>;

    open spec fn view(&self) -> Seq<(Seq<char>, Seq<u8>)> {
        param_entries(self.entries@)
    }
}

impl ParamMap {
    pub fn new() -> (r: ParamMap)
        ensures
            r@ == Seq::<(Seq<char>, Seq<u8>)>::empty(),
    {
        let entries: Vec<(String, Vec<u8>)> = Vec::new();
        assert(param_entries(entries@) =~= Seq::<(Seq<char>, Seq<u8>)>::empty());
        ParamMap { entries }
    }

    /// Makes `name` stand for `value`.
    pub fn insert(&mut self, name: String, value: Vec<u8>)
        ensures
            final(self)@ == put(old(self)@, name@, value@),
    {
        let ghost before = self@;
        let mut i: usize = 0;
        while i < self.entries.len()
            invariant
                self@ == before,
                before == old(self)@,
                i <= self.entries.len(),
                forall|j: int| 0 <= j < i ==> (#[trigger] before[j]).0 != name@,
            decreases self.entries.len() - i,
        {
            if same_text(self.entries[i].0.as_str(), name.as_str()) {
                proof {
                    lemma_place_is(before, name@, i as int);
                }
                self.entries.set(i, (name, value));
                assert(self@ =~= put(before, name@, value@));
                return;
            }
            assert(before[i as int].0 != name@);
            i = i + 1;
        }
        proof {
            lemma_place_is(before, name@, i as int);
        }
        self.entries.push((name, value));
        assert(self@ =~= put(before, name@, value@));
    }
}

impl SearchOptions {
    /// The first ten documents, whole, in the order of their scores.
    pub open spec fn plain() -> SearchOptionsView {
        SearchOptionsView {
            offset: 0,
            limit: 10,
            nocontent: false,
            sortby: None,
            return_fields: None,
            params: Seq::empty(),
        }
    }
}

impl Default for SearchOptions {
    fn default() -> (r: SearchOptions)
        ensures
            r@ == SearchOptions::plain(),
    {
        SearchOptions {
            offset: 0,
            limit: 10,
            nocontent: false,
            sortby: None,
            return_fields: None,
            params: ParamMap::new(),
        }
    }
}

pub(crate) fn no_schema() -> (r: Vec<SchemaField>)
    ensures
        schema_views(r@) == Seq::<SchemaFieldView>::empty(),
{
    let v: Vec<SchemaField> = Vec::new();
    assert(schema_views(v@) =~= Seq::<SchemaFieldView>::empty());
    v
}

pub(crate) fn push_schema_field(v: &mut Vec<SchemaField>, f: SchemaField)
    ensures
        schema_views(final(v)@) == schema_views(old(v)@).push(f@),
{
    v.push(f);
    assert(schema_views(v@) =~= schema_views(old(v)@).push(f@));
}

pub(crate) fn no_reducers() -> (r: Vec<Reducer>)
    ensures
        reducer_views(r@) == Seq::<ReducerView>::empty(),
{
    let v: Vec<Reducer> = Vec::new();
    assert(reducer_views(v@) =~= Seq::<ReducerView>::empty());
    v
}

pub(crate) fn push_reducer(v: &mut Vec<Reducer>, f: Reducer)
    ensures
        reducer_views(final(v)@) == reducer_views(old(v)@).push(f@),
{
    v.push(f);
    assert(reducer_views(v@) =~= reducer_views(old(v)@).push(f@));
}

pub(crate) fn no_stages() -> (r: Vec<AggregateStage>)
    ensures
        stage_views(r@) == Seq::<AggregateStageView>::empty(),
{
    let v: Vec<AggregateStage> = Vec::new();
    assert(stage_views(v@) =~= Seq::<AggregateStageView>::empty());
    v
}

pub(crate) fn push_stage(v: &mut Vec<AggregateStage>, f: AggregateStage)
    ensures
        stage_views(final(v)@) == stage_views(old(v)@).push(f@),
{
    v.push(f);
    assert(stage_views(v@) =~= stage_views(old(v)@).push(f@));
}

pub(crate) fn no_sort_keys() -> (r: Vec<(String, bool)>)
    ensures
        sort_keys(r@) == Seq::<(Seq<char>, bool)>::empty(),
{
    let v: Vec<(String, bool)> = Vec::new();
    assert(sort_keys(v@) =~= Seq::<(Seq<char>, bool)>::empty());
    v
}

pub(crate) fn push_sort_key(v: &mut Vec<(String, bool)>, field: String, asc: bool)
    ensures
        sort_keys(final(v)@) == sort_keys(old(v)@).push((field@, asc)),
{
    v.push((field, asc));
    assert(sort_keys(v@) =~= sort_keys(old(v)@).push((field@, asc)));
}

} // verus!
