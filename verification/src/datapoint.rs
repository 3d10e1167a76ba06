//! Rows of the semantic layer, and the data points they are gathered in.

use vstd::prelude::*;
use crate::ident::Id;
use crate::resource::Resource;
use crate::timestamp::Timestamp;

verus! {

/// One row of a result set. A field that the row does not carry is `None`:
/// not every resource has every field.
#[derive(Debug, Clone, Copy, PartialEq, Eq, Structural)]
pub struct Data {
    /// Count for the metric.
    pub count: Option<u64>,
    /// The organization the row belongs to.
    pub organization_id: Option<Id>,
    /// The collection the row belongs to.
    pub collection_id: Option<Id>,
    /// The project the row belongs to.
    pub project_id: Option<Id>,
    /// The time bucket of the row.
    pub timestamp: Option<Timestamp>,
}

/// The rows of one time bucket, resource by resource. A resource without
/// rows in the bucket has no list: it is never filled in with zeros.
#[derive(Debug, PartialEq, Eq)]
pub struct DataPoint {
    pub mints: Option<Vec<Data>>,
    pub customers: Option<Vec<Data>>,
    pub collections: Option<Vec<Data>>,
    pub wallets: Option<Vec<Data>>,
    pub projects: Option<Vec<Data>>,
    pub webhooks: Option<Vec<Data>>,
    pub credits: Option<Vec<Data>>,
    pub transfers: Option<Vec<Data>>,
    pub timestamp: Option<Timestamp>,
}

/// The rows of each resource that has any.
pub type Rows = Map<Resource, Seq<Data>>;

/// What a `DataPoint` holds.
pub struct DataPointView {
    pub rows: Rows,
    pub timestamp: Option<Timestamp>,
}

impl DataPointView {
    /// A data point without rows and without a timestamp.
    pub open spec fn empty() -> DataPointView {
        DataPointView { rows: Map::empty(), timestamp: None }
    }

    /// `self` with the rows of `other` joined to its own. The timestamp of
    /// `self` stays.
    pub open spec fn merge(self, other: DataPointView) -> DataPointView {
        DataPointView { rows: merged_rows(self.rows, other.rows), timestamp: self.timestamp }
    }

    /// `self` with one more row of `resource`, and with the timestamp
    /// `timestamp`.
    pub open spec fn set(
        self,
        resource: Resource,
        data: Data,
        timestamp: Option<Timestamp>,
    ) -> DataPointView {
        DataPointView { rows: with_row(self.rows, resource, data), timestamp }
    }
}

/// The rows of two data points together: the lists of a resource that both
/// have are joined, the second after the first, and nothing is left out or
/// counted once where it came twice.
pub open spec fn merged_rows(a: Rows, b: Rows) -> Rows {
    Map::new(
        |r: Resource| a.contains_key(r) || b.contains_key(r),
        |r: Resource|
            if a.contains_key(r) && b.contains_key(r) {
                a[r] + b[r]
            } else if a.contains_key(r) {
                a[r]
            } else {
                b[r]
            },
    )
}

/// The rows with one more for `resource`, after those it has.
pub open spec fn with_row(rows: Rows, resource: Resource, data: Data) -> Rows {
    rows.insert(
        resource,
        if rows.contains_key(resource) {
            rows[resource].push(data)
        } else {
            seq![data]
        },
    )
}

/// The rows of a list of data points together, in the order of the list.
pub open spec fn merge_all(points: Seq<DataPointView>) -> Rows
    decreases points.len(),
{
    if points.len() == 0 {
        Map::empty()
    } else {
        merged_rows(merge_all(points.drop_last()), points.last().rows)
    }
}

/// What a list of rows holds, if there is one.
pub open spec fn list_view(list: Option<Vec<Data>>) -> Option<Seq<Data>> {
    match list {
        Some(rows) => Some(rows@),
        None => None,
    }
}

/// Two lists of rows joined, the second after the first.
pub open spec fn merged_list(a: Option<Seq<Data>>, b: Option<Seq<Data>>) -> Option<Seq<Data>> {
    match (a, b) {
        (Some(x), Some(y)) => Some(x + y),
        (Some(x), None) => Some(x),
        (None, y) => y,
    }
}

/// Copies a list of rows.
fn copy_rows(list: &Vec<Data>) -> (r: Vec<Data>)
    ensures
        r@ == list@,
{
    let mut out: Vec<Data> = Vec::new();
    let mut i: usize = 0;
    while i < list.len()
        invariant
            i <= list.len(),
            out@ == list@.take(i as int),
        decreases list.len() - i,
    {
        out.push(list[i]);
        assert(out@ =~= list@.take(i + 1));
        i += 1;
    }
    assert(out@ =~= list@);
    out
}

/// Copies a list of rows, if there is one.
fn copy_list(list: &Option<Vec<Data>>) -> (r: Option<Vec<Data>>)
    ensures
        list_view(r) == list_view(*list),
{
    match list {
        Some(rows) => Some(copy_rows(rows)),
        None => None,
    }
}

/// Joins the rows of `src` to those of `dest`.
fn merge_list(dest: &mut Option<Vec<Data>>, src: &Option<Vec<Data>>)
    ensures
        list_view(*final(dest)) == merged_list(list_view(*old(dest)), list_view(*src)),
{
    match src {
        None => {},
        Some(more) => {
            let mut list = match dest.take() {
                Some(list) => list,
                None => Vec::new(),
            };
            let ghost before = list@;
            let mut i: usize = 0;
            while i < more.len()
                invariant
                    i <= more.len(),
                    list@ == before + more@.take(i as int),
                decreases more.len() - i,
            {
                list.push(more[i]);
                assert(list@ =~= before + more@.take(i + 1));
                i += 1;
            }
            assert(list@ =~= before + more@);
            assert(Seq::<Data>::empty() + more@ =~= more@);
            *dest = Some(list);
        },
    }
}

/// Puts one more row on a list, which it makes where there is none.
fn push_row(dest: &mut Option<Vec<Data>>, data: Data)
    ensures
        list_view(*final(dest)) == Some(
            match list_view(*old(dest)) {
                Some(rows) => rows.push(data),
                None => seq![data],
            },
        ),
{
    let mut list = match dest.take() {
        Some(list) => list,
        None => Vec::new(),
    };
    list.push(data);
    assert(Seq::<Data>::empty().push(data) =~= seq![data]);
    *dest = Some(list);
}

impl DataPoint {
    /// The list of rows of a resource.
    pub open spec fn list(self, resource: Resource) -> Option<Vec<Data>> {
        match resource {
            Resource::Mints => self.mints,
            Resource::Customers => self.customers,
            Resource::Wallets => self.wallets,
            Resource::Collections => self.collections,
            Resource::Projects => self.projects,
            Resource::Transfers => self.transfers,
            Resource::Webhooks => self.webhooks,
            Resource::Credits => self.credits,
        }
    }
}

impl View for DataPoint {
    type V = DataPointView;

    open spec fn view(&self) -> DataPointView {
        DataPointView {
            rows: Map::new(
                |r: Resource| self.list(r) is Some,
                |r: Resource| self.list(r)->Some_0@,
            ),
            timestamp: self.timestamp,
        }
    }
}

impl Clone for DataPoint {
    fn clone(&self) -> (r: Self)
        ensures
            r@ == self@,
    {
        let r = DataPoint {
            mints: copy_list(&self.mints),
            customers: copy_list(&self.customers),
            collections: copy_list(&self.collections),
            wallets: copy_list(&self.wallets),
            projects: copy_list(&self.projects),
            webhooks: copy_list(&self.webhooks),
            credits: copy_list(&self.credits),
            transfers: copy_list(&self.transfers),
            timestamp: self.timestamp,
        };
        proof {
            assert forall|res: Resource| list_view(r.list(res)) == list_view(self.list(res)) by {}
            assert(r@.rows =~= self@.rows);
        }
        r
    }
}

impl DataPoint {
    /// A data point without rows and without a timestamp.
    #[must_use]
    pub fn new() -> (r: Self)
        ensures
            r@ == DataPointView::empty(),
    {
        let r = Self {
            mints: None,
            customers: None,
            collections: None,
            wallets: None,
            projects: None,
            transfers: None,
            webhooks: None,
            credits: None,
            timestamp: None,
        };
        assert(r@.rows =~= Map::empty());
        r
    }

    /// Puts one more row of `resource` in, and gives the data point the
    /// timestamp `timestamp`.
    pub fn set(&mut self, resource: Resource, data: &Data, timestamp: Option<Timestamp>)
        ensures
            final(self)@ == old(self)@.set(resource, *data, timestamp),
    {
        self.timestamp = timestamp;
        match resource {
            Resource::Mints => push_row(&mut self.mints, *data),
            Resource::Customers => push_row(&mut self.customers, *data),
            Resource::Wallets => push_row(&mut self.wallets, *data),
            Resource::Collections => push_row(&mut self.collections, *data),
            Resource::Projects => push_row(&mut self.projects, *data),
            Resource::Transfers => push_row(&mut self.transfers, *data),
            Resource::Webhooks => push_row(&mut self.webhooks, *data),
            Resource::Credits => push_row(&mut self.credits, *data),
        }
        proof {
            let wanted = with_row(old(self)@.rows, resource, *data);
            assert forall|res: Resource| res != resource implies list_view(self.list(res))
                == list_view(old(self).list(res)) by {}
            assert(self@.rows =~= wanted);
        }
    }

    /// Joins the rows of `other` to those of `self`, resource by resource.
    /// The timestamp of `self` stays.
    pub fn merge(&mut self, other: &DataPoint)
        ensures
            final(self)@ == old(self)@.merge(other@),
    {
        merge_list(&mut self.mints, &other.mints);
        merge_list(&mut self.customers, &other.customers);
        merge_list(&mut self.wallets, &other.wallets);
        merge_list(&mut self.collections, &other.collections);
        merge_list(&mut self.projects, &other.projects);
        merge_list(&mut self.transfers, &other.transfers);
        merge_list(&mut self.webhooks, &other.webhooks);
        merge_list(&mut self.credits, &other.credits);
        proof {
            assert forall|res: Resource|
                list_view(self.list(res)) == merged_list(
                    list_view(old(self).list(res)),
                    list_view(other.list(res)),
                ) by {}
            assert(self@.rows =~= merged_rows(old(self)@.rows, other@.rows));
        }
    }
}

/// Joining no rows to some rows leaves them as they are, and joining rows to
/// none gives those rows.
pub proof fn lemma_merge_empty(rows: Rows)
    ensures
        merged_rows(rows, Map::empty()) == rows,
        merged_rows(Map::empty(), rows) == rows,
{
    assert(merged_rows(rows, Map::empty()) =~= rows);
    assert(merged_rows(Map::empty(), rows) =~= rows);
}

/// Merging a data point with one that has no rows leaves it unchanged,
/// whatever the timestamp of the other.
pub proof fn lemma_merge_with_empty(point: DataPointView, other: DataPointView)
    requires
        other.rows == Rows::empty(),
    ensures
        point.merge(other) == point,
        point.merge(DataPointView::empty()) == point,
{
    lemma_merge_empty(point.rows);
}

/// Whether one of the data points has a list of rows for `resource`.
pub open spec fn has_rows(points: Seq<DataPointView>, resource: Resource) -> bool {
    exists|k: int| 0 <= k < points.len() && (#[trigger] points[k]).rows.contains_key(resource)
}

/// What is merged from a list of data points has a list of rows for exactly
/// the resources for which one of the data points has one: a resource
/// without rows stays absent.
pub proof fn lemma_merge_all_keys(points: Seq<DataPointView>, resource: Resource)
    ensures
        merge_all(points).contains_key(resource) <==> has_rows(points, resource),
    decreases points.len(),
{
    if points.len() > 0 {
        let rest = points.drop_last();
        lemma_merge_all_keys(rest, resource);
        if has_rows(rest, resource) {
            let k = choose|k: int|
                0 <= k < rest.len() && (#[trigger] rest[k]).rows.contains_key(resource);
            assert(points[k] == rest[k]);
        }
        if has_rows(points, resource) && !points.last().rows.contains_key(resource) {
            let k = choose|k: int|
                0 <= k < points.len() && (#[trigger] points[k]).rows.contains_key(resource);
            assert(rest[k] == points[k]);
        }
        if points.last().rows.contains_key(resource) {
            assert(points[points.len() - 1].rows.contains_key(resource));
        }
    }
}

/// Rows of different resources can be joined in either order: what one
/// resource gets does not depend on when the rows of another came.
pub proof fn lemma_merge_commutes(a: Rows, b: Rows)
    requires
        forall|r: Resource| !(a.contains_key(r) && b.contains_key(r)),
    ensures
        merged_rows(a, b) == merged_rows(b, a),
{
    assert(merged_rows(a, b) =~= merged_rows(b, a));
}

/// Joining is associative: in a chain of merges the grouping does not matter.
pub proof fn lemma_merge_associative(a: Rows, b: Rows, c: Rows)
    ensures
        merged_rows(merged_rows(a, b), c) == merged_rows(a, merged_rows(b, c)),
{
    let left = merged_rows(merged_rows(a, b), c);
    let right = merged_rows(a, merged_rows(b, c));
    assert forall|r: Resource| left.contains_key(r) implies #[trigger] left[r] == right[r] by {
        if a.contains_key(r) && b.contains_key(r) && c.contains_key(r) {
            assert((a[r] + b[r]) + c[r] =~= a[r] + (b[r] + c[r]));
        }
    }
    assert(left =~= right);
}

/// The data points that one query gave.
#[derive(Debug, PartialEq, Eq)]
pub struct DataPoints(pub Vec<DataPoint>);

impl DataPoints {
    /// What the data points hold, one for one.
    pub open spec fn views(self) -> Seq<DataPointView> {
        points_view(self.0@)
    }

    #[must_use]
    pub fn into_vec(self) -> (r: Vec<DataPoint>)
        ensures
            r == self.0,
    {
        self.0
    }
}

/// What a list of data points holds, one for one.
pub open spec fn points_view(points: Seq<DataPoint>) -> Seq<DataPointView> {
    points.map_values(|p: DataPoint| p@)
}

} // verus!
