//! A request for analytics, from its inputs to the queries that are sent and
//! from the responses to the data points that are given back.
//!
//! Nothing here talks to the semantic layer. `analytics` validates the
//! request and plans its queries; the caller sends each query and hands the
//! responses to `Plan::finish`.

use vstd::prelude::*;
use crate::datapoint::{points_view, DataPoint, DataPointView, DataPoints};
use crate::error::{DecodeFault, Error};
use crate::ident::{uuid_text, Id};
use crate::interval::{Granularity, Order, TimeGranularity};
use crate::merge::{is_merged, merge_points};
use crate::query::{queries_view, query_of, Query, QueryView};
use crate::resource::{Measure, Resource};
use crate::response::{points_of, response_rows};
use crate::scope::{parse_id_and_root, scope_of, Scope, ScopeKey, ScopeView};
use crate::selection::{
    fields_view, selections_of, selections_view, RequestedField, RequestedFieldView, Selection,
    SelectionView,
};
use crate::text::{dotted, texts};
use crate::window::{window_of, DateRange, TimeWindow};

verus! {

/// What a caller asks for.
#[derive(Debug, PartialEq, Eq)]
pub struct AnalyticsRequest {
    pub organization_id: Option<Id>,
    pub project_id: Option<Id>,
    pub collection_id: Option<Id>,
    /// Two dates, or a named interval.
    pub date_range: DateRange,
    /// The bucket width, where the caller wants another than the window's own.
    pub granularity: Option<Granularity>,
    /// The direction of the result; the latest first where none is given.
    pub order: Option<Order>,
    /// The number of rows asked of each query.
    pub limit: Option<i32>,
    /// The fields asked for at the top of the request.
    pub fields: Vec<RequestedField>,
}

/// What is to be done for a request.
#[derive(Debug, PartialEq, Eq)]
pub struct Plan {
    /// What is computed, resource by resource.
    pub selections: Vec<Selection>,
    /// The queries to send, one for each selection and in the same order.
    pub queries: Vec<Query>,
    /// Whether a time series was asked for.
    pub use_ts: bool,
    /// The direction of the result.
    pub order: Order,
}

/// What a `Plan` holds.
pub struct PlanView {
    pub selections: Seq<SelectionView>,
    pub queries: Seq<QueryView>,
    pub use_ts: bool,
    pub order: Order,
}

impl View for Plan {
    type V = PlanView;

    open spec fn view(&self) -> PlanView {
        PlanView {
            selections: selections_view(self.selections@),
            queries: queries_view(self.queries@),
            use_ts: self.use_ts,
            order: self.order,
        }
    }
}

/// Whether one of the selections asks for a time series.
pub open spec fn any_timestamp(selections: Seq<SelectionView>) -> bool {
    exists|i: int| 0 <= i < selections.len() && (#[trigger] selections[i]).has_ts
}

/// The queries for a list of selections, one for each.
pub open spec fn queries_of(
    selections: Seq<SelectionView>,
    scope: ScopeView,
    window: TimeWindow,
    order: Option<Order>,
    limit: Option<i32>,
) -> Seq<QueryView> {
    selections.map_values(|s: SelectionView| query_of(s, scope, window, order, limit))
}

/// The plan for a request. The scope is looked at first, then the time
/// window: a request that is wrong in both is an `InvalidScope`.
pub open spec fn plan_of(request: AnalyticsRequest) -> Result<PlanView, Error> {
    match scope_of(request.organization_id, request.project_id, request.collection_id) {
        None => Err(Error::InvalidScope),
        Some((id, key)) => match window_of(request.date_range, request.granularity) {
            None => Err(Error::InvalidTimeWindow),
            Some(window) => {
                let selections = selections_of(fields_view(request.fields@));
                Ok(
                    PlanView {
                        selections,
                        queries: queries_of(
                            selections,
                            ScopeView { id: uuid_text(id.bits), key },
                            window,
                            request.order,
                            request.limit,
                        ),
                        use_ts: any_timestamp(selections),
                        order: match request.order {
                            Some(o) => o,
                            None => Order::Desc,
                        },
                    },
                )
            },
        },
    }
}

/// The queries for a list of selections, one for each.
pub fn build_queries(
    selections: &Vec<Selection>,
    scope: &Scope,
    window: &TimeWindow,
    order: Option<Order>,
    limit: Option<i32>,
) -> (r: Vec<Query>)
    ensures
        queries_view(r@) == queries_of(selections_view(selections@), scope@, *window, order, limit),
{
    let mut queries: Vec<Query> = Vec::new();
    let mut i: usize = 0;
    while i < selections.len()
        invariant
            i <= selections.len(),
            queries@.len() == i,
            forall|k: int|
                0 <= k < i ==> (#[trigger] queries@[k])@ == query_of(
                    selections@[k]@,
                    scope@,
                    *window,
                    order,
                    limit,
                ),
        decreases selections.len() - i,
    {
        queries.push(Query::build(&selections[i], scope, window, order, limit));
        i += 1;
    }
    assert(queries_view(queries@) =~= queries_of(
        selections_view(selections@),
        scope@,
        *window,
        order,
        limit,
    ));
    queries
}

/// Validates a request and plans its queries. A request that is refused has
/// sent nothing: both checks come before any query exists.
pub fn analytics(request: &AnalyticsRequest) -> (r: Result<Plan, Error>)
    ensures
        match plan_of(*request) {
            Ok(plan) => r is Ok && r->Ok_0@ == plan,
            Err(e) => r == Err::<Plan, Error>(e),
        },
{
    let selections = Selection::from_context(&request.fields);
    let scope = match parse_id_and_root(
        request.organization_id,
        request.project_id,
        request.collection_id,
    ) {
        Ok(scope) => scope,
        Err(e) => {
            return Err(e);
        },
    };
    let window = match TimeWindow::resolve(&request.date_range, request.granularity) {
        Ok(window) => window,
        Err(e) => {
            return Err(e);
        },
    };
    let queries = build_queries(&selections, &scope, &window, request.order, request.limit);
    let use_ts = Selection::any_timestamp(&selections);
    proof {
        let views = selections_view(selections@);
        if use_ts {
            let i = choose|i: int| 0 <= i < selections@.len() && (#[trigger] selections@[i]).has_ts;
            assert(views[i].has_ts);
        }
        if any_timestamp(views) {
            let i = choose|i: int| 0 <= i < views.len() && (#[trigger] views[i]).has_ts;
            assert(selections@[i].has_ts);
        }
    }
    Ok(
        Plan {
            selections,
            queries,
            use_ts,
            order: match request.order {
                Some(o) => o,
                None => Order::Desc,
            },
        },
    )
}

/// The data points that the responses hold, those of the first query first.
/// There is one response for each selection; the first response that cannot
/// be read fails them all.
pub open spec fn gathered(selections: Seq<SelectionView>, responses: Seq<Seq<char>>) -> Result<
    Seq<DataPointView>,
    Error,
>
    decreases selections.len(),
{
    if selections.len() != responses.len() {
        Err(Error::DecodeError(DecodeFault::Responses))
    } else if selections.len() == 0 {
        Ok(Seq::empty())
    } else {
        match gathered(selections.drop_last(), responses.drop_last()) {
            Err(e) => Err(e),
            Ok(points) => match response_rows(responses.last(), selections.last().resource) {
                Err(e) => Err(e),
                Ok(rows) => Ok(points + points_of(selections.last().resource, rows)),
            },
        }
    }
}

/// A fault among the first responses is the fault of them all.
pub proof fn lemma_gathered_fault(
    selections: Seq<SelectionView>,
    responses: Seq<Seq<char>>,
    n: int,
)
    requires
        selections.len() == responses.len(),
        0 <= n <= selections.len(),
        gathered(selections.take(n), responses.take(n)) is Err,
    ensures
        gathered(selections, responses) == gathered(selections.take(n), responses.take(n)),
    decreases selections.len() - n,
{
    if n < selections.len() {
        assert(selections.take(n + 1).drop_last() =~= selections.take(n));
        assert(responses.take(n + 1).drop_last() =~= responses.take(n));
        lemma_gathered_fault(selections, responses, n + 1);
    } else {
        assert(selections.take(n) =~= selections);
        assert(responses.take(n) =~= responses);
    }
}

impl Plan {
    /// Merges the data points that the queries gave: see `merge_points`.
    pub fn assemble(&self, points: &Vec<DataPoint>) -> (r: Vec<DataPoint>)
        ensures
            is_merged(points_view(points@), self.use_ts, self.order, points_view(r@)),
    {
        merge_points(points, self.use_ts, self.order)
    }

    /// Reads the responses, one for each query and in the order of the
    /// queries, and merges what they hold. One response that cannot be read
    /// fails the request: part of a result would pass for the whole.
    pub fn finish(&self, responses: &Vec<String>) -> (r: Result<Vec<DataPoint>, Error>)
        ensures
            match gathered(self@.selections, texts(responses@)) {
                Ok(points) => r is Ok && is_merged(
                    points,
                    self.use_ts,
                    self.order,
                    points_view(r->Ok_0@),
                ),
                Err(e) => r == Err::<Vec<DataPoint>, Error>(e),
            },
    {
        let ghost selections = self@.selections;
        let ghost all = texts(responses@);
        if responses.len() != self.selections.len() {
            return Err(Error::DecodeError(DecodeFault::Responses));
        }
        let mut points: Vec<DataPoint> = Vec::new();
        let mut i: usize = 0;
        assert(points_view(points@) =~= Seq::empty());
        while i < responses.len()
            invariant
                i <= responses.len(),
                responses.len() == self.selections.len(),
                selections == self@.selections,
                all == texts(responses@),
                gathered(selections.take(i as int), all.take(i as int)) == Ok::<
                    Seq<DataPointView>,
                    Error,
                >(points_view(points@)),
            decreases responses.len() - i,
        {
            let resource = self.selections[i].resource;
            proof {
                assert(selections.take(i + 1).drop_last() =~= selections.take(i as int));
                assert(all.take(i + 1).drop_last() =~= all.take(i as int));
                assert(selections.take(i + 1).last() == self.selections@[i as int]@);
                assert(all.take(i + 1).last() == responses@[i as int]@);
            }
            let found = match DataPoints::from_response(responses[i].as_str(), resource) {
                Ok(found) => found,
                Err(e) => {
                    proof {
                        lemma_gathered_fault(selections, all, i + 1);
                    }
                    return Err(e);
                },
            };
            let ghost before = points_view(points@);
            let ghost added = found.views();
            let mut more = found.into_vec();
            points.append(&mut more);
            assert(points_view(points@) =~= before + added);
            i += 1;
        }
        assert(selections.take(responses.len() as int) =~= selections);
        assert(all.take(responses.len() as int) =~= all);
        Ok(self.assemble(&points))
    }
}

/// The resource that given measures are about: that of the first measure,
/// or the mints where there is no measure.
pub open spec fn measured_resource(measures: Seq<Measure>) -> Resource {
    if measures.len() > 0 {
        measures[0].resource
    } else {
        Resource::Mints
    }
}

/// The selection behind a query for given measures: the rows are grouped by
/// the field of the scope, and the result is a time series in buckets of the
/// window's width, which is the width that is given, or a day for two dates,
/// or the interval's own.
pub open spec fn stats_selection(measures: Seq<Measure>, key: ScopeKey) -> SelectionView {
    let resource = measured_resource(measures);
    SelectionView {
        resource,
        measures,
        dimensions: seq![dotted(resource.name(), key.name())],
        has_ts: true,
    }
}

/// The query for given measures over a scope and a time window.
pub open spec fn stats_query(
    organization_id: Option<Id>,
    project_id: Option<Id>,
    collection_id: Option<Id>,
    measures: Seq<Measure>,
    granularity: Option<Granularity>,
    date_range: DateRange,
    order: Option<Order>,
    limit: Option<i32>,
) -> Result<QueryView, Error> {
    match scope_of(organization_id, project_id, collection_id) {
        None => Err(Error::InvalidScope),
        Some((id, key)) => match window_of(date_range, granularity) {
            None => Err(Error::InvalidTimeWindow),
            Some(window) => Ok(
                query_of(
                    stats_selection(measures, key),
                    ScopeView { id: uuid_text(id.bits), key },
                    window,
                    order,
                    limit,
                ),
            ),
        },
    }
}

/// The query for given measures has buckets of the width of its window: the
/// width that is given, or else a day for two dates and the interval's own
/// for an interval.
pub proof fn lemma_stats_width(
    organization_id: Option<Id>,
    project_id: Option<Id>,
    collection_id: Option<Id>,
    measures: Seq<Measure>,
    granularity: Option<Granularity>,
    date_range: DateRange,
    order: Option<Order>,
    limit: Option<i32>,
)
    ensures
        stats_query(
            organization_id,
            project_id,
            collection_id,
            measures,
            granularity,
            date_range,
            order,
            limit,
        ) matches Ok(query) ==> {
            &&& window_of(date_range, granularity) matches Some(window)
            &&& query.time_dimension matches Some(time)
            &&& time.granularity == Some(TimeGranularity::of(window.granularity))
            &&& time.date_range == window.range.expr()
            &&& granularity matches Some(given) ==> window.granularity == given
            &&& granularity is None && date_range.start is Some ==> window.granularity
                == Granularity::Day
        },
{
}

/// The resource that given measures are about, by which the response to
/// their query is read.
pub fn stats_resource(measures: &Vec<Measure>) -> (r: Resource)
    ensures
        r == measured_resource(measures@),
{
    if measures.len() > 0 {
        measures[0].resource
    } else {
        Resource::Mints
    }
}

/// Builds the query for given measures: the named measures of one resource
/// over a scope and a time window, grouped by the field of the scope, as a
/// time series in buckets of the window's width. The scope is looked at
/// first, then the time window.
pub fn stats(
    organization_id: Option<Id>,
    project_id: Option<Id>,
    collection_id: Option<Id>,
    measures: &Vec<Measure>,
    granularity: Option<Granularity>,
    date_range: &DateRange,
    order: Option<Order>,
    limit: Option<i32>,
) -> (r: Result<Query, Error>)
    ensures
        match stats_query(
            organization_id,
            project_id,
            collection_id,
            measures@,
            granularity,
            *date_range,
            order,
            limit,
        ) {
            Ok(query) => r is Ok && r->Ok_0@ == query,
            Err(e) => r == Err::<Query, Error>(e),
        },
{
    let scope = match parse_id_and_root(organization_id, project_id, collection_id) {
        Ok(scope) => scope,
        Err(e) => {
            return Err(e);
        },
    };
    let window = match TimeWindow::resolve(date_range, granularity) {
        Ok(window) => window,
        Err(e) => {
            return Err(e);
        },
    };
    let resource = stats_resource(measures);
    let mut chosen: Vec<Measure> = Vec::new();
    let mut i: usize = 0;
    while i < measures.len()
        invariant
            i <= measures.len(),
            chosen@ == measures@.take(i as int),
        decreases measures.len() - i,
    {
        chosen.push(measures[i]);
        assert(chosen@ =~= measures@.take(i + 1));
        i += 1;
    }
    assert(chosen@ =~= measures@);
    let mut dimensions: Vec<String> = Vec::new();
    dimensions.push(resource.field(scope.key.as_str()));
    assert(texts(dimensions@) =~= seq![dotted(resource.name(), scope.key.name())]);
    let selection = Selection {
        resource,
        measures: chosen,
        dimensions,
        has_ts: true,
    };
    Ok(Query::build(&selection, &scope, &window, order, limit))
}

} // verus!
