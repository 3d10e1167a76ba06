//! The analytics of one project: the count of its mints and of its customers.

use vstd::prelude::*;
use crate::datapoint::DataPoints;
use crate::error::{DecodeFault, Error};
use crate::ident::{uuid_text, Id};
use crate::interval::{Interval, Order, TimeGranularity};
use crate::json::{json_of_text, Json};
use crate::response::{count_field, id_field, read_rows, result_set, rows_by, timestamp_field};
use crate::timestamp::Timestamp;
use crate::query::{
    limit_of, limit_or_default, scope_filter, scope_filters, Query, QueryView, TimeDimension,
    TimeDimensionView,
};
use crate::resource::{Measure, Operation, Resource};
use crate::scope::{Scope, ScopeKey, ScopeView};
use crate::text::{clone_strings, dotted, texts};

verus! {

/// What a caller asks about a project.
#[derive(Debug, Clone, Copy, PartialEq, Eq)]
pub struct ProjectAnalytics {
    pub id: Id,
    pub interval: Option<Interval>,
    pub order: Option<Order>,
    pub limit: Option<i32>,
}

/// The query for the count of a resource within a project.
///
/// - It asks for the count of the resource, grouped as the caller asks, on
///   the rows of the project, and for `DEFAULT_LIMIT` rows unless the caller
///   names a limit. It names no order.
/// - Where the caller asks for the timestamp, it has a time dimension: the
///   timestamp of the resource over the named interval, which is today where
///   none is given, in buckets of the interval's own width. The interval
///   `All` is the range without bounds.
/// - Where the caller does not ask for the timestamp, it has no time
///   dimension: the count is over all time.
pub open spec fn project_query(
    analytics: ProjectAnalytics,
    resource: Resource,
    dimensions: Seq<Seq<char>>,
    with_timestamp: bool,
) -> QueryView {
    let interval = match analytics.interval {
        Some(interval) => interval,
        None => Interval::Today,
    };
    QueryView {
        measures: seq![(Measure { resource, operation: Operation::Count }).text()],
        dimensions,
        time_dimension: if with_timestamp {
            Some(
                TimeDimensionView {
                    dimension: dotted(resource.name(), "timestamp"@),
                    granularity: Some(TimeGranularity::of(interval.granularity())),
                    date_range: interval.date_range(),
                },
            )
        } else {
            None
        },
        filters: seq![
            scope_filter(
                resource,
                ScopeView { id: uuid_text(analytics.id.bits), key: ScopeKey::Project },
            ),
        ],
        order: None,
        limit: limit_of(analytics.limit),
    }
}

impl ProjectAnalytics {
    pub fn new(id: Id, interval: Option<Interval>, order: Option<Order>, limit: Option<i32>) -> (r:
        Self)
        ensures
            r == (ProjectAnalytics { id, interval, order, limit }),
    {
        Self { id, interval, order, limit }
    }

    /// The query for the count of a resource within the project.
    pub fn count_query(&self, resource: Resource, dimensions: &Vec<String>, with_timestamp: bool) -> (r:
        Query)
        ensures
            r@ == project_query(*self, resource, texts(dimensions@), with_timestamp),
    {
        let time_dimension = if with_timestamp {
            let interval = match self.interval {
                Some(interval) => interval,
                None => Interval::default(),
            };
            Some(
                TimeDimension {
                    dimension: resource.field("timestamp"),
                    granularity: Some(TimeGranularity::from(interval.to_granularity())),
                    date_range: interval.to_date_range(),
                },
            )
        } else {
            None
        };
        let mut measures: Vec<String> = Vec::new();
        measures.push(Measure::new(resource, Operation::Count).as_string());
        assert(texts(measures@) =~= seq![
            (Measure { resource, operation: Operation::Count }).text(),
        ]);
        let scope = Scope { id: self.id.to_text(), key: ScopeKey::Project };
        Query {
            measures,
            dimensions: clone_strings(dimensions),
            time_dimension,
            filters: scope_filters(resource, &scope),
            order: None,
            limit: limit_or_default(self.limit),
        }
    }

    /// The query for the count of the project's mints.
    pub fn mints(&self, dimensions: &Vec<String>, with_timestamp: bool) -> (r: Query)
        ensures
            r@ == project_query(*self, Resource::Mints, texts(dimensions@), with_timestamp),
    {
        self.count_query(Resource::Mints, dimensions, with_timestamp)
    }

    /// The query for the count of the project's customers.
    pub fn customers(&self, dimensions: &Vec<String>, with_timestamp: bool) -> (r: Query)
        ensures
            r@ == project_query(*self, Resource::Customers, texts(dimensions@), with_timestamp),
    {
        self.count_query(Resource::Customers, dimensions, with_timestamp)
    }
}

/// A project, known by its identifier.
#[derive(Debug, Clone, Copy, PartialEq, Eq, Structural)]
pub struct Project {
    pub id: Id,
}

impl Project {
    /// What a caller asks about the project.
    pub fn analytics(&self, interval: Option<Interval>, order: Option<Order>, limit: Option<i32>) -> (r:
        ProjectAnalytics)
        ensures
            r == (ProjectAnalytics { id: self.id, interval, order, limit }),
    {
        ProjectAnalytics::new(self.id, interval, order, limit)
    }
}

/// A row of the count of mints.
#[derive(Debug, Clone, Copy, PartialEq, Eq, Structural)]
pub struct MintDataPoint {
    pub count: Option<u64>,
    pub timestamp: Option<Timestamp>,
    pub collection_id: Option<Id>,
    pub project_id: Option<Id>,
}

/// A row of the count of customers.
#[derive(Debug, Clone, Copy, PartialEq, Eq, Structural)]
pub struct CustomerDataPoint {
    pub count: Option<u64>,
    pub timestamp: Option<Timestamp>,
    pub project_id: Option<Id>,
}

/// The row of mints that a JSON value holds. The fields are read in the
/// order count, timestamp, collection, project, and the first fault is the
/// one reported.
pub open spec fn mint_of(row: Json) -> Result<MintDataPoint, Error> {
    if !(row is Object) {
        Err(Error::DecodeError(DecodeFault::Row))
    } else {
        match count_field(row, "mints.count"@) {
            Err(e) => Err(e),
            Ok(count) => match timestamp_field(row, "mints.timestamp"@) {
                Err(e) => Err(e),
                Ok(timestamp) => match id_field(row, "mints.collection_id"@) {
                    Err(e) => Err(e),
                    Ok(collection_id) => match id_field(row, "mints.project_id"@) {
                        Err(e) => Err(e),
                        Ok(project_id) => Ok(
                            MintDataPoint { count, timestamp, collection_id, project_id },
                        ),
                    },
                },
            },
        }
    }
}

/// The row of customers that a JSON value holds. The fields are read in the
/// order count, timestamp, project, and the first fault is the one reported.
pub open spec fn customer_of(row: Json) -> Result<CustomerDataPoint, Error> {
    if !(row is Object) {
        Err(Error::DecodeError(DecodeFault::Row))
    } else {
        match count_field(row, "customers.count"@) {
            Err(e) => Err(e),
            Ok(count) => match timestamp_field(row, "customers.timestamp"@) {
                Err(e) => Err(e),
                Ok(timestamp) => match id_field(row, "customers.project_id"@) {
                    Err(e) => Err(e),
                    Ok(project_id) => Ok(CustomerDataPoint { count, timestamp, project_id }),
                },
            },
        }
    }
}

/// How a JSON value is read as a row of mints.
pub open spec fn mint_row() -> spec_fn(Json) -> Result<MintDataPoint, Error> {
    |row: Json| mint_of(row)
}

/// How a JSON value is read as a row of customers.
pub open spec fn customer_row() -> spec_fn(Json) -> Result<CustomerDataPoint, Error> {
    |row: Json| customer_of(row)
}

/// The rows of mints that a response holds.
pub open spec fn document_mints(doc: Option<Json>) -> Result<Seq<MintDataPoint>, Error> {
    match doc {
        None => Err(Error::DecodeError(DecodeFault::Syntax)),
        Some(doc) => match result_set(doc) {
            Err(e) => Err(e),
            Ok(items) => rows_by(items, mint_row()),
        },
    }
}

/// The rows of customers that a response holds.
pub open spec fn document_customers(doc: Option<Json>) -> Result<Seq<CustomerDataPoint>, Error> {
    match doc {
        None => Err(Error::DecodeError(DecodeFault::Syntax)),
        Some(doc) => match result_set(doc) {
            Err(e) => Err(e),
            Ok(items) => rows_by(items, customer_row()),
        },
    }
}

impl MintDataPoint {
    /// Reads a row of mints.
    pub fn from_row(row: &Json) -> (r: Result<MintDataPoint, Error>)
        ensures
            r == mint_of(*row),
    {
        match row {
            Json::Object(_) => {},
            _ => {
                return Err(Error::DecodeError(DecodeFault::Row));
            },
        }
        let count = match DataPoints::parse_count(row, "mints.count") {
            Ok(count) => count,
            Err(e) => {
                return Err(e);
            },
        };
        let timestamp = match DataPoints::parse_timestamp(row, "mints.timestamp") {
            Ok(t) => t,
            Err(e) => {
                return Err(e);
            },
        };
        let collection_id = match DataPoints::parse_uuid(row, "mints.collection_id") {
            Ok(id) => id,
            Err(e) => {
                return Err(e);
            },
        };
        let project_id = match DataPoints::parse_uuid(row, "mints.project_id") {
            Ok(id) => id,
            Err(e) => {
                return Err(e);
            },
        };
        Ok(MintDataPoint { count, timestamp, collection_id, project_id })
    }

    /// Reads the rows of mints from a response that has been read as JSON,
    /// in the order of the rows. The first fault fails the whole response.
    pub fn from_json(doc: &Json) -> (r: Result<Vec<MintDataPoint>, Error>)
        ensures
            match document_mints(Some(*doc)) {
                Ok(rows) => r is Ok && r->Ok_0@ == rows,
                Err(e) => r == Err::<Vec<MintDataPoint>, Error>(e),
            },
    {
        let read = |value: &Json| -> (out: Result<MintDataPoint, Error>)
            ensures
                out == mint_of(*value),
            { Self::from_row(value) };
        read_rows(doc, read, Ghost(mint_row()))
    }

    /// Reads the rows of mints from the text of a response.
    pub fn from_response(response: &str) -> (r: Result<Vec<MintDataPoint>, Error>)
        ensures
            match document_mints(json_of_text(response@)) {
                Ok(rows) => r is Ok && r->Ok_0@ == rows,
                Err(e) => r == Err::<Vec<MintDataPoint>, Error>(e),
            },
    {
        match Json::parse(response) {
            None => Err(Error::DecodeError(DecodeFault::Syntax)),
            Some(doc) => Self::from_json(&doc),
        }
    }
}

impl CustomerDataPoint {
    /// Reads a row of customers.
    pub fn from_row(row: &Json) -> (r: Result<CustomerDataPoint, Error>)
        ensures
            r == customer_of(*row),
    {
        match row {
            Json::Object(_) => {},
            _ => {
                return Err(Error::DecodeError(DecodeFault::Row));
            },
        }
        let count = match DataPoints::parse_count(row, "customers.count") {
            Ok(count) => count,
            Err(e) => {
                return Err(e);
            },
        };
        let timestamp = match DataPoints::parse_timestamp(row, "customers.timestamp") {
            Ok(t) => t,
            Err(e) => {
                return Err(e);
            },
        };
        let project_id = match DataPoints::parse_uuid(row, "customers.project_id") {
            Ok(id) => id,
            Err(e) => {
                return Err(e);
            },
        };
        Ok(CustomerDataPoint { count, timestamp, project_id })
    }

    /// Reads the rows of customers from a response that has been read as
    /// JSON, in the order of the rows. The first fault fails the whole
    /// response.
    pub fn from_json(doc: &Json) -> (r: Result<Vec<CustomerDataPoint>, Error>)
        ensures
            match document_customers(Some(*doc)) {
                Ok(rows) => r is Ok && r->Ok_0@ == rows,
                Err(e) => r == Err::<Vec<CustomerDataPoint>, Error>(e),
            },
    {
        let read = |value: &Json| -> (out: Result<CustomerDataPoint, Error>)
            ensures
                out == customer_of(*value),
            { Self::from_row(value) };
        read_rows(doc, read, Ghost(customer_row()))
    }

    /// Reads the rows of customers from the text of a response.
    pub fn from_response(response: &str) -> (r: Result<Vec<CustomerDataPoint>, Error>)
        ensures
            match document_customers(json_of_text(response@)) {
                Ok(rows) => r is Ok && r->Ok_0@ == rows,
                Err(e) => r == Err::<Vec<CustomerDataPoint>, Error>(e),
            },
    {
        match Json::parse(response) {
            None => Err(Error::DecodeError(DecodeFault::Syntax)),
            Some(doc) => Self::from_json(&doc),
        }
    }
}

} // verus!
