//! The query builder: one query of the semantic layer for one selection.

use vstd::prelude::*;
use crate::interval::{Order, RangeExpr, RangeExprView, TimeGranularity};
use crate::resource::{Measure, Resource};
use crate::scope::{Scope, ScopeView};
use crate::selection::{Selection, SelectionView};
use crate::text::{clone_strings, dotted, join_dotted, lemma_dotted_prefix, str_eq, texts};
use crate::window::TimeWindow;

verus! {

/// The time dimension of a query: the field that holds the time, the width
/// of the buckets, and the range of time. Without a width the semantic layer
/// gives one value for the whole range in place of a series.
#[derive(Debug, PartialEq, Eq)]
pub struct TimeDimension {
    pub dimension: String,
    pub granularity: Option<TimeGranularity>,
    pub date_range: RangeExpr,
}

/// What a `TimeDimension` holds.
pub struct TimeDimensionView {
    pub dimension: Seq<char>,
    pub granularity: Option<TimeGranularity>,
    pub date_range: RangeExprView,
}

impl View for TimeDimension {
    type V = TimeDimensionView;

    open spec fn view(&self) -> TimeDimensionView {
        TimeDimensionView {
            dimension: self.dimension@,
            granularity: self.granularity,
            date_range: self.date_range@,
        }
    }
}

/// A condition on the rows: `member operator values`.
#[derive(Debug, PartialEq, Eq)]
pub struct Filter {
    pub member: String,
    pub operator: String,
    pub values: Vec<String>,
}

/// What a `Filter` holds.
pub struct FilterView {
    pub member: Seq<char>,
    pub operator: Seq<char>,
    pub values: Seq<Seq<char>>,
}

impl View for Filter {
    type V = FilterView;

    open spec fn view(&self) -> FilterView {
        FilterView { member: self.member@, operator: self.operator@, values: texts(self.values@) }
    }
}

/// A query of the semantic layer. A query without a time dimension is over
/// all time, and one without an order leaves the order to the semantic layer.
#[derive(Debug, PartialEq, Eq)]
pub struct Query {
    pub measures: Vec<String>,
    pub dimensions: Vec<String>,
    pub time_dimension: Option<TimeDimension>,
    pub filters: Vec<Filter>,
    pub order: Option<(String, Order)>,
    pub limit: i32,
}

/// What a `Query` holds.
pub struct QueryView {
    pub measures: Seq<Seq<char>>,
    pub dimensions: Seq<Seq<char>>,
    pub time_dimension: Option<TimeDimensionView>,
    pub filters: Seq<FilterView>,
    pub order: Option<(Seq<char>, Order)>,
    pub limit: int,
}

impl View for Query {
    type V = QueryView;

    open spec fn view(&self) -> QueryView {
        QueryView {
            measures: texts(self.measures@),
            dimensions: texts(self.dimensions@),
            time_dimension: match self.time_dimension {
                Some(dimension) => Some(dimension@),
                None => None,
            },
            filters: self.filters@.map_values(|f: Filter| f@),
            order: match self.order {
                Some(order) => Some((order.0@, order.1)),
                None => None,
            },
            limit: self.limit as int,
        }
    }
}

/// What a list of queries holds, one for one.
pub open spec fn queries_view(list: Seq<Query>) -> Seq<QueryView> {
    list.map_values(|q: Query| q@)
}

/// The names of a list of measures.
pub open spec fn measure_texts(measures: Seq<Measure>) -> Seq<Seq<char>> {
    measures.map_values(|m: Measure| m.text())
}

/// The number of rows asked for where the caller names none.
pub const DEFAULT_LIMIT: i32 = 100;

/// The query for one selection.
///
/// - It asks for the measures and groupings of the selection.
/// - Its time dimension is the timestamp of the resource over the range of
///   the window. It has a bucket width only where the selection asks for a
///   time series, and the width is the window's: an hour for an hour.
/// - Its one filter narrows the rows to the scope.
/// - It is ordered by the timestamp of the resource, the latest first unless
///   the caller says otherwise, and limited to `DEFAULT_LIMIT` rows unless
///   the caller says otherwise.
pub open spec fn query_of(
    selection: SelectionView,
    scope: ScopeView,
    window: TimeWindow,
    order: Option<Order>,
    limit: Option<i32>,
) -> QueryView {
    let timestamp = dotted(selection.resource.name(), "timestamp"@);
    QueryView {
        measures: measure_texts(selection.measures),
        dimensions: selection.dimensions,
        time_dimension: Some(
            TimeDimensionView {
                dimension: timestamp,
                granularity: if selection.has_ts {
                    Some(TimeGranularity::of(window.granularity))
                } else {
                    None
                },
                date_range: window.range.expr(),
            },
        ),
        filters: seq![scope_filter(selection.resource, scope)],
        order: Some(
            (
                timestamp,
                match order {
                    Some(o) => o,
                    None => Order::Desc,
                },
            ),
        ),
        limit: limit_of(limit),
    }
}

/// The filter that narrows the rows of a resource to a scope.
pub open spec fn scope_filter(resource: Resource, scope: ScopeView) -> FilterView {
    FilterView {
        member: dotted(resource.name(), scope.key.name()),
        operator: "equals"@,
        values: seq![scope.id],
    }
}

/// The number of rows asked for: the caller's, or `DEFAULT_LIMIT`.
pub open spec fn limit_of(limit: Option<i32>) -> int {
    match limit {
        Some(n) => n as int,
        None => DEFAULT_LIMIT as int,
    }
}

/// The query for a time series has buckets of the window's width, and the
/// query for anything else has no width.
pub proof fn lemma_query_width(
    selection: SelectionView,
    scope: ScopeView,
    window: TimeWindow,
    order: Option<Order>,
    limit: Option<i32>,
)
    ensures
        query_of(selection, scope, window, order, limit).time_dimension matches Some(time) && (
        if selection.has_ts {
            time.granularity matches Some(width) && width.name() == window.granularity.name()
        } else {
            time.granularity is None
        }),
{
}

/// Whether `selection` is what the query asks for: the query's time
/// dimension is the timestamp of the selection's resource, its measures are
/// named as the selection's are, its groupings are the selection's, and it
/// has a bucket width exactly where the selection asks for a time series.
pub open spec fn holds_selection(query: QueryView, selection: SelectionView) -> bool {
    &&& query.time_dimension matches Some(time)
    &&& time.dimension == dotted(selection.resource.name(), "timestamp"@)
    &&& query.measures == measure_texts(selection.measures)
    &&& query.dimensions == selection.dimensions
    &&& time.granularity is Some <==> selection.has_ts
}

/// A query asks for one selection at most.
pub proof fn lemma_selection_unique(query: QueryView, a: SelectionView, b: SelectionView)
    requires
        holds_selection(query, a),
        holds_selection(query, b),
    ensures
        a == b,
{
    lemma_dotted_prefix(a.resource.name(), b.resource.name(), "timestamp"@);
    Resource::lemma_names_distinct(a.resource, b.resource);
    assert(a.measures.len() == measure_texts(a.measures).len());
    assert(b.measures.len() == measure_texts(b.measures).len());
    assert forall|i: int| 0 <= i < a.measures.len() implies a.measures[i] == b.measures[i] by {
        assert(measure_texts(a.measures)[i] == a.measures[i].text());
        assert(measure_texts(b.measures)[i] == b.measures[i].text());
        Measure::lemma_text_injective(a.measures[i], b.measures[i]);
    }
    assert(a.measures =~= b.measures);
}

/// The query built for a selection asks for that selection, and for no
/// other: what is read back from the query is what went in.
pub proof fn lemma_round_trip(
    selection: SelectionView,
    scope: ScopeView,
    window: TimeWindow,
    order: Option<Order>,
    limit: Option<i32>,
    found: SelectionView,
)
    ensures
        holds_selection(query_of(selection, scope, window, order, limit), found) <==> found
            == selection,
{
    let query = query_of(selection, scope, window, order, limit);
    assert(holds_selection(query, selection));
    if holds_selection(query, found) {
        lemma_selection_unique(query, found, selection);
    }
}

/// Writes the names of a list of measures.
pub fn measure_names(list: &Vec<Measure>) -> (r: Vec<String>)
    ensures
        texts(r@) == measure_texts(list@),
{
    let mut names: Vec<String> = Vec::new();
    let mut i: usize = 0;
    while i < list.len()
        invariant
            i <= list.len(),
            names@.len() == i,
            forall|k: int| 0 <= k < i ==> (#[trigger] names@[k])@ == list@[k].text(),
        decreases list.len() - i,
    {
        names.push(list[i].as_string());
        i += 1;
    }
    assert(texts(names@) =~= measure_texts(list@));
    names
}

/// The one filter of a query: the rows of the resource within the scope.
pub fn scope_filters(resource: Resource, scope: &Scope) -> (r: Vec<Filter>)
    ensures
        r@.map_values(|f: Filter| f@) == seq![scope_filter(resource, scope@)],
{
    let mut values: Vec<String> = Vec::new();
    values.push(scope.id.clone());
    assert(texts(values@) =~= seq![scope.id@]);
    let filter = Filter {
        member: join_dotted(resource.as_str(), scope.key.as_str()),
        operator: "equals".to_owned(),
        values,
    };
    let ghost filter_view = filter@;
    let mut filters: Vec<Filter> = Vec::new();
    filters.push(filter);
    assert(filters@.map_values(|f: Filter| f@) =~= seq![filter_view]);
    filters
}

/// The number of rows to ask for.
pub fn limit_or_default(limit: Option<i32>) -> (r: i32)
    ensures
        r == limit_of(limit),
{
    match limit {
        Some(n) => n,
        None => DEFAULT_LIMIT,
    }
}

/// The resource whose timestamp a field is.
fn timestamp_owner(field: &str) -> (r: Option<Resource>)
    ensures
        match r {
            Some(resource) => field@ == dotted(resource.name(), "timestamp"@),
            None => forall|resource: Resource|
                field@ != dotted(#[trigger] resource.name(), "timestamp"@),
        },
{
    let all = Resource::all();
    let mut i: usize = 0;
    while i < all.len()
        invariant
            i <= all.len(),
            forall|k: int|
                0 <= k < i ==> field@ != dotted((#[trigger] all@[k]).name(), "timestamp"@),
        decreases all.len() - i,
    {
        if str_eq(all[i].field("timestamp").as_str(), field) {
            return Some(all[i]);
        }
        i += 1;
    }
    assert forall|resource: Resource|
        field@ != dotted(#[trigger] resource.name(), "timestamp"@) by {
        assert(all@.contains(resource));
        let k = choose|k: int| 0 <= k < all@.len() && all@[k] == resource;
        assert(all@[k].name() == resource.name());
    }
    None
}

impl Query {
    /// Builds the query for one selection. Nothing is sent anywhere.
    pub fn build(
        selection: &Selection,
        scope: &Scope,
        window: &TimeWindow,
        order: Option<Order>,
        limit: Option<i32>,
    ) -> (r: Query)
        ensures
            r@ == query_of(selection@, scope@, *window, order, limit),
    {
        let resource = selection.resource;
        let granularity = if selection.has_ts {
            Some(TimeGranularity::from(window.granularity))
        } else {
            None
        };
        let time_dimension = TimeDimension {
            dimension: resource.field("timestamp"),
            granularity,
            date_range: window.range.to_expr(),
        };
        Query {
            measures: measure_names(&selection.measures),
            dimensions: clone_strings(&selection.dimensions),
            time_dimension: Some(time_dimension),
            filters: scope_filters(resource, scope),
            order: Some(
                (
                    resource.field("timestamp"),
                    match order {
                        Some(o) => o,
                        None => Order::Desc,
                    },
                ),
            ),
            limit: limit_or_default(limit),
        }
    }

    /// Reads back the selection that the query asks for. `None` where the
    /// query asks for none: it has no time dimension, or one that is the
    /// timestamp of no resource, or one of its measures is the name of none.
    pub fn selection(&self) -> (r: Option<Selection>)
        ensures
            match r {
                Some(selection) => holds_selection(self@, selection@),
                None => forall|selection: SelectionView| !holds_selection(self@, selection),
            },
    {
        let time = match &self.time_dimension {
            Some(time) => time,
            None => {
                return None;
            },
        };
        let resource = match timestamp_owner(time.dimension.as_str()) {
            Some(resource) => resource,
            None => {
                return None;
            },
        };
        let mut measures: Vec<Measure> = Vec::new();
        let mut i: usize = 0;
        while i < self.measures.len()
            invariant
                i <= self.measures.len(),
                measures@.len() == i,
                forall|k: int| 0 <= k < i ==> (#[trigger] measures@[k]).text() == self.measures@[k]@,
            decreases self.measures.len() - i,
        {
            match Measure::parse(self.measures[i].as_str()) {
                Some(measure) => {
                    measures.push(measure);
                },
                None => {
                    assert forall|selection: SelectionView| !holds_selection(
                        self@,
                        selection,
                    ) by {
                        if holds_selection(self@, selection) {
                            assert(texts(self.measures@).len() == self.measures@.len());
                            assert(measure_texts(selection.measures).len()
                                == selection.measures.len());
                            assert(measure_texts(selection.measures)[i as int]
                                == selection.measures[i as int].text());
                            assert(texts(self.measures@)[i as int] == self.measures@[i as int]@);
                        }
                    }
                    return None;
                },
            }
            i += 1;
        }
        assert(texts(self.measures@) =~= measure_texts(measures@));
        Some(
            Selection {
                resource,
                measures,
                dimensions: clone_strings(&self.dimensions),
                has_ts: time.granularity.is_some(),
            },
        )
    }
}

} // verus!
