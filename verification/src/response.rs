//! Reading the responses of the semantic layer.
//!
//! A response is a JSON document `{ "results": [ { "data": [ row, ... ] } ] }`.
//! A row is an object whose members are named `<resource>.<field>`; numbers,
//! identifiers and timestamps all come as strings.

use vstd::prelude::*;
use crate::datapoint::{Data, DataPoint, DataPointView, DataPoints};
use crate::error::{DecodeFault, Error};
use crate::ident::Id;
use crate::json::{json_of_text, Json};
use crate::resource::Resource;
use crate::text::{dotted, parse_u64, u64_of_text};
use crate::timestamp::Timestamp;

verus! {

/// The string that a member of a row holds. A row that has no such member,
/// or has `null` there, holds none; a member of any other kind is a fault.
pub open spec fn field_text(row: Json, name: Seq<char>) -> Result<Option<Seq<char>>, ()> {
    match row.member(name) {
        None => Ok(None),
        Some(Json::Null) => Ok(None),
        Some(Json::Text(text)) => Ok(Some(text@)),
        Some(_) => Err(()),
    }
}

/// The count that a member of a row holds.
pub open spec fn count_field(row: Json, name: Seq<char>) -> Result<Option<u64>, Error> {
    match field_text(row, name) {
        Ok(None) => Ok(None),
        Ok(Some(text)) => match u64_of_text(text) {
            Some(count) => Ok(Some(count)),
            None => Err(Error::DecodeError(DecodeFault::Count)),
        },
        Err(_) => Err(Error::DecodeError(DecodeFault::Count)),
    }
}

/// The identifier that a member of a row holds.
pub open spec fn id_field(row: Json, name: Seq<char>) -> Result<Option<Id>, Error> {
    match field_text(row, name) {
        Ok(None) => Ok(None),
        Ok(Some(text)) => match Id::of_text(text) {
            Some(id) => Ok(Some(id)),
            None => Err(Error::DecodeError(DecodeFault::Id)),
        },
        Err(_) => Err(Error::DecodeError(DecodeFault::Id)),
    }
}

/// The timestamp that a member of a row holds.
pub open spec fn timestamp_field(row: Json, name: Seq<char>) -> Result<Option<Timestamp>, Error> {
    match field_text(row, name) {
        Ok(None) => Ok(None),
        Ok(Some(text)) => match Timestamp::of_text(text) {
            Some(t) => Ok(Some(t)),
            None => Err(Error::DecodeError(DecodeFault::Timestamp)),
        },
        Err(_) => Err(Error::DecodeError(DecodeFault::Timestamp)),
    }
}

/// The row of `resource` that a JSON value holds. The fields are read in the
/// order count, organization, project, collection, timestamp, and the first
/// fault is the one reported.
pub open spec fn row_of(row: Json, resource: Resource) -> Result<Data, Error> {
    if !(row is Object) {
        Err(Error::DecodeError(DecodeFault::Row))
    } else {
        match count_field(row, dotted(resource.name(), "count"@)) {
            Err(e) => Err(e),
            Ok(count) => match id_field(row, "projects.organization_id"@) {
                Err(e) => Err(e),
                Ok(organization_id) => match id_field(
                    row,
                    dotted(resource.name(), "project_id"@),
                ) {
                    Err(e) => Err(e),
                    Ok(project_id) => match id_field(
                        row,
                        dotted(resource.name(), "collection_id"@),
                    ) {
                        Err(e) => Err(e),
                        Ok(collection_id) => match timestamp_field(
                            row,
                            dotted(resource.name(), "timestamp"@),
                        ) {
                            Err(e) => Err(e),
                            Ok(timestamp) => Ok(
                                Data {
                                    count,
                                    organization_id,
                                    collection_id,
                                    project_id,
                                    timestamp,
                                },
                            ),
                        },
                    },
                },
            },
        }
    }
}

/// What a list of JSON values holds, each read as a row by `row`, or the
/// fault of the first value that is no such row.
pub open spec fn rows_by<T>(items: Seq<Json>, row: spec_fn(Json) -> Result<T, Error>) -> Result<
    Seq<T>,
    Error,
>
    decreases items.len(),
{
    if items.len() == 0 {
        Ok(Seq::empty())
    } else {
        match rows_by(items.drop_last(), row) {
            Err(e) => Err(e),
            Ok(rows) => match row(items.last()) {
                Err(e) => Err(e),
                Ok(data) => Ok(rows.push(data)),
            },
        }
    }
}

/// How a JSON value is read as a row of `resource`.
pub open spec fn data_row(resource: Resource) -> spec_fn(Json) -> Result<Data, Error> {
    |row: Json| row_of(row, resource)
}

/// The rows of `resource` that a list of JSON values holds, or the fault of
/// the first value that holds none.
pub open spec fn rows_of(items: Seq<Json>, resource: Resource) -> Result<Seq<Data>, Error> {
    rows_by(items, data_row(resource))
}

/// The list of rows of the first result set of a response.
pub open spec fn result_set(doc: Json) -> Result<Seq<Json>, Error> {
    match doc.member("results"@) {
        Some(Json::Array(results)) => if results@.len() == 0 {
            Err(Error::DecodeError(DecodeFault::NoResults))
        } else {
            match results@[0].member("data"@) {
                Some(Json::Array(rows)) => Ok(rows@),
                _ => Err(Error::DecodeError(DecodeFault::NoData)),
            }
        },
        _ => Err(Error::DecodeError(DecodeFault::NoResults)),
    }
}

/// The rows of `resource` that a response holds.
pub open spec fn document_rows(doc: Json, resource: Resource) -> Result<Seq<Data>, Error> {
    match result_set(doc) {
        Err(e) => Err(e),
        Ok(items) => rows_of(items, resource),
    }
}

/// The rows of `resource` that the text of a response holds.
pub open spec fn response_rows(text: Seq<char>, resource: Resource) -> Result<Seq<Data>, Error> {
    match json_of_text(text) {
        None => Err(Error::DecodeError(DecodeFault::Syntax)),
        Some(doc) => document_rows(doc, resource),
    }
}

/// The data point of a single row: the row under its resource, with the
/// row's timestamp.
pub open spec fn point_of(resource: Resource, data: Data) -> DataPointView {
    DataPointView { rows: map![resource => seq![data]], timestamp: data.timestamp }
}

/// The data points of a list of rows, one for each.
pub open spec fn points_of(resource: Resource, rows: Seq<Data>) -> Seq<DataPointView> {
    rows.map_values(|data: Data| point_of(resource, data))
}

/// Reads the string of a member of a row.
fn parse_text<'a>(value: &'a Json, field: &str) -> (r: Result<Option<&'a String>, ()>)
    ensures
        match r {
            Ok(Some(text)) => field_text(*value, field@) == Ok::<Option<Seq<char>>, ()>(
                Some(text@),
            ),
            Ok(None) => field_text(*value, field@) == Ok::<Option<Seq<char>>, ()>(None),
            Err(_) => field_text(*value, field@) is Err,
        },
{
    match value.get(field) {
        None => Ok(None),
        Some(Json::Null) => Ok(None),
        Some(Json::Text(text)) => Ok(Some(text)),
        Some(_) => Err(()),
    }
}

/// The list of rows of the first result set of a response.
pub fn result_rows(doc: &Json) -> (r: Result<&Vec<Json>, Error>)
    ensures
        match r {
            Ok(items) => result_set(*doc) == Ok::<Seq<Json>, Error>(items@),
            Err(e) => result_set(*doc) == Err::<Seq<Json>, Error>(e),
        },
{
    let results = match doc.get("results") {
        Some(Json::Array(results)) => results,
        _ => {
            return Err(Error::DecodeError(DecodeFault::NoResults));
        },
    };
    if results.len() == 0 {
        return Err(Error::DecodeError(DecodeFault::NoResults));
    }
    match results[0].get("data") {
        Some(Json::Array(items)) => Ok(items),
        _ => Err(Error::DecodeError(DecodeFault::NoData)),
    }
}

impl DataPoints {
    /// Reads a member of a row as a count.
    pub fn parse_count(value: &Json, field: &str) -> (r: Result<Option<u64>, Error>)
        ensures
            r == count_field(*value, field@),
    {
        match parse_text(value, field) {
            Ok(None) => Ok(None),
            Ok(Some(text)) => match parse_u64(text.as_str()) {
                Some(count) => Ok(Some(count)),
                None => Err(Error::DecodeError(DecodeFault::Count)),
            },
            Err(_) => Err(Error::DecodeError(DecodeFault::Count)),
        }
    }

    /// Reads a member of a row as an identifier.
    pub fn parse_uuid(value: &Json, field: &str) -> (r: Result<Option<Id>, Error>)
        ensures
            r == id_field(*value, field@),
    {
        match parse_text(value, field) {
            Ok(None) => Ok(None),
            Ok(Some(text)) => match Id::parse(text.as_str()) {
                Some(id) => Ok(Some(id)),
                None => Err(Error::DecodeError(DecodeFault::Id)),
            },
            Err(_) => Err(Error::DecodeError(DecodeFault::Id)),
        }
    }

    /// Reads a member of a row as a timestamp.
    pub fn parse_timestamp(value: &Json, field: &str) -> (r: Result<Option<Timestamp>, Error>)
        ensures
            r == timestamp_field(*value, field@),
    {
        match parse_text(value, field) {
            Ok(None) => Ok(None),
            Ok(Some(text)) => match Timestamp::parse(text.as_str()) {
                Some(t) => Ok(Some(t)),
                None => Err(Error::DecodeError(DecodeFault::Timestamp)),
            },
            Err(_) => Err(Error::DecodeError(DecodeFault::Timestamp)),
        }
    }

    /// Reads a row of `resource`.
    pub fn parse_data(value: &Json, resource: Resource) -> (r: Result<Data, Error>)
        ensures
            r == row_of(*value, resource),
    {
        match value {
            Json::Object(_) => {},
            _ => {
                return Err(Error::DecodeError(DecodeFault::Row));
            },
        }
        let count = match Self::parse_count(value, resource.field("count").as_str()) {
            Ok(count) => count,
            Err(e) => {
                return Err(e);
            },
        };
        let organization_id = match Self::parse_uuid(value, "projects.organization_id") {
            Ok(id) => id,
            Err(e) => {
                return Err(e);
            },
        };
        let project_id = match Self::parse_uuid(value, resource.field("project_id").as_str()) {
            Ok(id) => id,
            Err(e) => {
                return Err(e);
            },
        };
        let collection_id = match Self::parse_uuid(
            value,
            resource.field("collection_id").as_str(),
        ) {
            Ok(id) => id,
            Err(e) => {
                return Err(e);
            },
        };
        let timestamp = match Self::parse_timestamp(value, resource.field("timestamp").as_str()) {
            Ok(t) => t,
            Err(e) => {
                return Err(e);
            },
        };
        Ok(Data { count, organization_id, collection_id, project_id, timestamp })
    }

    /// Reads the data points of `resource` from a response that has been read
    /// as JSON: one data point for each row of the first result set, in the
    /// order of the rows. The first fault fails the whole response.
    pub fn from_json(doc: &Json, resource: Resource) -> (r: Result<DataPoints, Error>)
        ensures
            match document_rows(*doc, resource) {
                Ok(rows) => r is Ok && r->Ok_0.views() == points_of(resource, rows),
                Err(e) => r == Err::<DataPoints, Error>(e),
            },
    {
        let read = |value: &Json| -> (out: Result<Data, Error>)
            ensures
                out == row_of(*value, resource),
            { Self::parse_data(value, resource) };
        let rows = match read_rows(doc, read, Ghost(data_row(resource))) {
            Ok(rows) => rows,
            Err(e) => {
                return Err(e);
            },
        };
        let mut points: Vec<DataPoint> = Vec::new();
        let mut i: usize = 0;
        while i < rows.len()
            invariant
                i <= rows.len(),
                points@.len() == i,
                forall|k: int|
                    0 <= k < i ==> (#[trigger] points@[k])@ == point_of(resource, rows@[k]),
            decreases rows.len() - i,
        {
            let data = rows[i];
            let mut point = DataPoint::new();
            point.set(resource, &data, data.timestamp);
            assert(point@.rows =~= map![resource => seq![data]]);
            points.push(point);
            i += 1;
        }
        assert(crate::datapoint::points_view(points@) =~= points_of(resource, rows@));
        Ok(DataPoints(points))
    }

    /// Reads the data points of `resource` from the text of a response.
    pub fn from_response(response: &str, resource: Resource) -> (r: Result<DataPoints, Error>)
        ensures
            match response_rows(response@, resource) {
                Ok(rows) => r is Ok && r->Ok_0.views() == points_of(resource, rows),
                Err(e) => r == Err::<DataPoints, Error>(e),
            },
    {
        match Json::parse(response) {
            None => Err(Error::DecodeError(DecodeFault::Syntax)),
            Some(doc) => Self::from_json(&doc, resource),
        }
    }
}

/// A fault among the first rows is the fault of the whole list.
pub proof fn lemma_rows_fault<T>(items: Seq<Json>, n: int, row: spec_fn(Json) -> Result<T, Error>)
    requires
        0 <= n <= items.len(),
        rows_by(items.take(n), row) is Err,
    ensures
        rows_by(items, row) == rows_by(items.take(n), row),
    decreases items.len() - n,
{
    if n < items.len() {
        assert(items.take(n + 1).drop_last() =~= items.take(n));
        lemma_rows_fault(items, n + 1, row);
    } else {
        assert(items.take(n) =~= items);
    }
}

/// Reads the rows of the first result set of a response, each by `read`, in
/// the order of the rows. The first fault fails the whole response.
pub(crate) fn read_rows<T, F: Fn(&Json) -> Result<T, Error>>(
    doc: &Json,
    read: F,
    Ghost(row): Ghost<spec_fn(Json) -> Result<T, Error>>,
) -> (r: Result<Vec<T>, Error>)
    requires
        forall|value: &Json| #[trigger] call_requires(read, (value,)),
        forall|value: &Json, out: Result<T, Error>| #[trigger]
            call_ensures(read, (value,), out) ==> out == row(*value),
    ensures
        match result_set(*doc) {
            Ok(items) => match rows_by(items, row) {
                Ok(rows) => r is Ok && r->Ok_0@ == rows,
                Err(e) => r == Err::<Vec<T>, Error>(e),
            },
            Err(e) => r == Err::<Vec<T>, Error>(e),
        },
{
    let items = match result_rows(doc) {
        Ok(items) => items,
        Err(e) => {
            return Err(e);
        },
    };
    let mut rows: Vec<T> = Vec::new();
    let mut i: usize = 0;
    while i < items.len()
        invariant
            i <= items.len(),
            result_set(*doc) == Ok::<Seq<Json>, Error>(items@),
            forall|value: &Json| #[trigger] call_requires(read, (value,)),
            forall|value: &Json, out: Result<T, Error>| #[trigger]
                call_ensures(read, (value,), out) ==> out == row(*value),
            rows_by(items@.take(i as int), row) == Ok::<Seq<T>, Error>(rows@),
        decreases items.len() - i,
    {
        assert(items@.take(i + 1).drop_last() =~= items@.take(i as int));
        match read(&items[i]) {
            Ok(data) => {
                rows.push(data);
            },
            Err(e) => {
                proof {
                    lemma_rows_fault(items@, i + 1, row);
                }
                return Err(e);
            },
        }
        i += 1;
    }
    assert(items@.take(items.len() as int) =~= items@);
    Ok(rows)
}

} // verus!
