//! The selection extractor: from the fields a caller asked for to what is
//! computed for each resource.

use vstd::prelude::*;
use crate::resource::{Measure, Operation, Resource};
use crate::text::{dotted, str_eq, texts};

verus! {

/// A field that a caller asked for at the top of a request, with the names
/// of the fields asked for beneath it.
#[derive(Debug, PartialEq, Eq)]
pub struct RequestedField {
    pub name: String,
    pub selection_set: Vec<String>,
}

/// What a `RequestedField` holds.
pub struct RequestedFieldView {
    pub name: Seq<char>,
    pub selection_set: Seq<Seq<char>>,
}

impl View for RequestedField {
    type V = RequestedFieldView;

    open spec fn view(&self) -> RequestedFieldView {
        RequestedFieldView { name: self.name@, selection_set: texts(self.selection_set@) }
    }
}

/// The fields beneath a resource that mean something to the extractor.
/// Every other name is passed over.
#[derive(Debug, Clone, Copy, PartialEq, Eq, Structural)]
pub enum NestedField {
    /// `count`: the count of the resource is computed.
    Count,
    /// `organizationId`: the rows are grouped by the organization of their project.
    OrganizationId,
    /// `projectId`: the rows are grouped by project.
    ProjectId,
    /// `collectionId`: the rows are grouped by collection.
    CollectionId,
    /// `timestamp`: a time series is asked for.
    Timestamp,
}

impl NestedField {
    /// The field that a name stands for, if any.
    pub open spec fn parse(name: Seq<char>) -> Option<NestedField> {
        if name == "count"@ {
            Some(NestedField::Count)
        } else if name == "organizationId"@ {
            Some(NestedField::OrganizationId)
        } else if name == "projectId"@ {
            Some(NestedField::ProjectId)
        } else if name == "collectionId"@ {
            Some(NestedField::CollectionId)
        } else if name == "timestamp"@ {
            Some(NestedField::Timestamp)
        } else {
            None
        }
    }

    /// The measure that the field asks for.
    pub open spec fn measure(self, resource: Resource) -> Option<Measure> {
        match self {
            NestedField::Count => Some(Measure { resource, operation: Operation::Count }),
            _ => None,
        }
    }

    /// The grouping that the field asks for. The organization is a field of
    /// the projects, whatever the resource; project and collection are fields
    /// of the resource itself.
    pub open spec fn dimension(self, resource: Resource) -> Option<Seq<char>> {
        match self {
            NestedField::OrganizationId => Some("projects.organization_id"@),
            NestedField::ProjectId => Some(dotted(resource.name(), "project_id"@)),
            NestedField::CollectionId => Some(dotted(resource.name(), "collection_id"@)),
            _ => None,
        }
    }

    /// Reads the name of a field.
    pub fn from_name(name: &str) -> (r: Option<NestedField>)
        ensures
            r == NestedField::parse(name@),
    {
        if str_eq(name, "count") {
            Some(NestedField::Count)
        } else if str_eq(name, "organizationId") {
            Some(NestedField::OrganizationId)
        } else if str_eq(name, "projectId") {
            Some(NestedField::ProjectId)
        } else if str_eq(name, "collectionId") {
            Some(NestedField::CollectionId)
        } else if str_eq(name, "timestamp") {
            Some(NestedField::Timestamp)
        } else {
            None
        }
    }
}

/// What is computed for one resource.
#[derive(Debug, PartialEq, Eq)]
pub struct Selection {
    pub resource: Resource,
    pub measures: Vec<Measure>,
    pub dimensions: Vec<String>,
    pub has_ts: bool,
}

/// What a `Selection` holds.
pub struct SelectionView {
    pub resource: Resource,
    pub measures: Seq<Measure>,
    pub dimensions: Seq<Seq<char>>,
    pub has_ts: bool,
}

impl View for Selection {
    type V = SelectionView;

    open spec fn view(&self) -> SelectionView {
        SelectionView {
            resource: self.resource,
            measures: self.measures@,
            dimensions: texts(self.dimensions@),
            has_ts: self.has_ts,
        }
    }
}

/// What a list of selections holds, one for one.
pub open spec fn selections_view(list: Seq<Selection>) -> Seq<SelectionView> {
    list.map_values(|s: Selection| s@)
}

/// What a list of requested fields holds, one for one.
pub open spec fn fields_view(list: Seq<RequestedField>) -> Seq<RequestedFieldView> {
    list.map_values(|f: RequestedField| f@)
}

/// The measure that a name beneath `resource` asks for.
pub open spec fn to_measure(resource: Resource) -> spec_fn(Seq<char>) -> Option<Measure> {
    |name: Seq<char>|
        match NestedField::parse(name) {
            Some(field) => field.measure(resource),
            None => None,
        }
}

/// The grouping that a name beneath `resource` asks for.
pub open spec fn to_dimension(resource: Resource) -> spec_fn(Seq<char>) -> Option<Seq<char>> {
    |name: Seq<char>|
        match NestedField::parse(name) {
            Some(field) => field.dimension(resource),
            None => None,
        }
}

/// Whether one of the names asks for a time series.
pub open spec fn asks_timestamp(names: Seq<Seq<char>>) -> bool {
    exists|i: int|
        0 <= i < names.len() && NestedField::parse(#[trigger] names[i]) == Some(
            NestedField::Timestamp,
        )
}

/// What the names beneath `resource` ask for: the measures and the groupings
/// in the order of the names, one for each name that asks for one.
pub open spec fn selection_of(resource: Resource, names: Seq<Seq<char>>) -> SelectionView {
    SelectionView {
        resource,
        measures: names.filter_map(to_measure(resource)),
        dimensions: names.filter_map(to_dimension(resource)),
        has_ts: asks_timestamp(names),
    }
}

/// The resources that the fields at the top of a request name, each once,
/// in the order in which they are first named. A field that is not named as
/// a resource is, names none of them.
pub open spec fn resources_named(fields: Seq<RequestedFieldView>) -> Seq<Resource>
    decreases fields.len(),
{
    if fields.len() == 0 {
        Seq::empty()
    } else {
        let rest = resources_named(fields.drop_last());
        match Resource::parse(fields.last().name) {
            Some(resource) => if rest.contains(resource) {
                rest
            } else {
                rest.push(resource)
            },
            None => rest,
        }
    }
}

/// The names beneath all the fields that name `resource`, in the order of
/// the fields.
pub open spec fn names_under(fields: Seq<RequestedFieldView>, resource: Resource) -> Seq<
    Seq<char>,
>
    decreases fields.len(),
{
    if fields.len() == 0 {
        Seq::empty()
    } else {
        let rest = names_under(fields.drop_last(), resource);
        if Resource::parse(fields.last().name) == Some(resource) {
            rest + fields.last().selection_set
        } else {
            rest
        }
    }
}

/// The selection of a resource within a request: what all the names beneath
/// the fields that name it ask for.
pub open spec fn to_selection(fields: Seq<RequestedFieldView>) -> spec_fn(Resource) -> SelectionView {
    |resource: Resource| selection_of(resource, names_under(fields, resource))
}

/// The selections of a request: one for each resource that its fields name,
/// at the place where the resource is first named. A resource that is named
/// by more than one field still has one selection, which holds what the names
/// beneath all those fields ask for.
pub open spec fn selections_of(fields: Seq<RequestedFieldView>) -> Seq<SelectionView> {
    resources_named(fields).map_values(to_selection(fields))
}

/// Whether one of the fields is named as `resource` is.
pub open spec fn names_resource(fields: Seq<RequestedFieldView>, resource: Resource) -> bool {
    exists|k: int|
        0 <= k < fields.len() && Resource::parse((#[trigger] fields[k]).name) == Some(resource)
}

/// Whether one of the selections is for `resource`.
pub open spec fn selects(selections: Seq<SelectionView>, resource: Resource) -> bool {
    exists|i: int| 0 <= i < selections.len() && (#[trigger] selections[i]).resource == resource
}

/// Whether no two of the selections are for the same resource.
pub open spec fn selects_each_once(selections: Seq<SelectionView>) -> bool {
    forall|i: int, j: int|
        0 <= i < j < selections.len() ==> (#[trigger] selections[i]).resource != (
        #[trigger] selections[j]).resource
}

/// The resources that a request names are listed once each, and they are
/// the resources that one of its fields names.
pub proof fn lemma_resources_named(fields: Seq<RequestedFieldView>)
    ensures
        resources_named(fields).no_duplicates(),
        resources_named(fields).len() <= fields.len(),
        forall|resource: Resource|
            #![trigger resources_named(fields).contains(resource)]
            #![trigger names_resource(fields, resource)]
            resources_named(fields).contains(resource) <==> names_resource(fields, resource),
    decreases fields.len(),
{
    let all = resources_named(fields);
    if fields.len() > 0 {
        let rest = fields.drop_last();
        let before = resources_named(rest);
        lemma_resources_named(rest);
        assert forall|resource: Resource|
            #![trigger all.contains(resource)]
            #![trigger names_resource(fields, resource)]
            all.contains(resource) <==> names_resource(fields, resource) by {
            if all.contains(resource) {
                if before.contains(resource) {
                    assert(names_resource(rest, resource));
                    let k = choose|k: int|
                        0 <= k < rest.len() && Resource::parse((#[trigger] rest[k]).name) == Some(
                            resource,
                        );
                    assert(fields[k] == rest[k]);
                } else {
                    let i = choose|i: int| 0 <= i < all.len() && all[i] == resource;
                    assert(i == before.len());
                    assert(fields[fields.len() - 1] == fields.last());
                }
            }
            if names_resource(fields, resource) {
                let k = choose|k: int|
                    0 <= k < fields.len() && Resource::parse((#[trigger] fields[k]).name) == Some(
                        resource,
                    );
                if k < rest.len() {
                    assert(rest[k] == fields[k]);
                    assert(names_resource(rest, resource));
                    assert(before.contains(resource));
                    let i = choose|i: int| 0 <= i < before.len() && before[i] == resource;
                    assert(all[i] == resource);
                } else if !before.contains(resource) {
                    assert(all[before.len() as int] == resource);
                } else {
                    let i = choose|i: int| 0 <= i < before.len() && before[i] == resource;
                    assert(all[i] == resource);
                }
            }
        }
    }
}

/// A request has one selection for each resource that its fields name, and
/// none for any other: a resource that is not named gets no selection, and a
/// resource that is named twice gets one.
pub proof fn lemma_selections_cover(fields: Seq<RequestedFieldView>)
    ensures
        selects_each_once(selections_of(fields)),
        selections_of(fields).len() <= fields.len(),
        forall|resource: Resource|
            #![trigger selects(selections_of(fields), resource)]
            #![trigger names_resource(fields, resource)]
            selects(selections_of(fields), resource) <==> names_resource(fields, resource),
        forall|i: int|
            0 <= i < selections_of(fields).len() ==> (#[trigger] selections_of(fields)[i])
                == selection_of(
                selections_of(fields)[i].resource,
                names_under(fields, selections_of(fields)[i].resource),
            ),
{
    let named = resources_named(fields);
    let all = selections_of(fields);
    lemma_resources_named(fields);
    assert forall|i: int| 0 <= i < all.len() implies (#[trigger] all[i]).resource == named[i] by {}
    assert forall|resource: Resource|
        #![trigger selects(all, resource)]
        #![trigger names_resource(fields, resource)]
        selects(all, resource) <==> names_resource(fields, resource) by {
        if selects(all, resource) {
            let i = choose|i: int| 0 <= i < all.len() && (#[trigger] all[i]).resource == resource;
            assert(named[i] == resource);
            assert(named.contains(resource));
        }
        if names_resource(fields, resource) {
            assert(named.contains(resource));
            let i = choose|i: int| 0 <= i < named.len() && named[i] == resource;
            assert(all[i].resource == resource);
        }
    }
}

/// Whether the list holds the resource.
fn holds(list: &Vec<Resource>, resource: Resource) -> (r: bool)
    ensures
        r == list@.contains(resource),
{
    let mut i: usize = 0;
    while i < list.len()
        invariant
            i <= list.len(),
            forall|k: int| 0 <= k < i ==> list@[k] != resource,
        decreases list.len() - i,
    {
        if list[i] == resource {
            return true;
        }
        i += 1;
    }
    false
}

/// The resources that the fields name, each once.
fn named_resources(fields: &Vec<RequestedField>) -> (r: Vec<Resource>)
    ensures
        r@ == resources_named(fields_view(fields@)),
{
    let ghost all = fields_view(fields@);
    let mut list: Vec<Resource> = Vec::new();
    let mut i: usize = 0;
    while i < fields.len()
        invariant
            i <= fields.len(),
            all == fields_view(fields@),
            list@ == resources_named(all.take(i as int)),
        decreases fields.len() - i,
    {
        assert(all.take(i + 1).drop_last() =~= all.take(i as int));
        assert(all.take(i + 1).last() == fields@[i as int]@);
        match Resource::from_str(fields[i].name.as_str()) {
            Ok(resource) => {
                if !holds(&list, resource) {
                    list.push(resource);
                }
            },
            Err(_) => {},
        }
        i += 1;
    }
    assert(all.take(fields.len() as int) =~= all);
    list
}

/// The names beneath all the fields that name `resource`.
fn gathered_names(fields: &Vec<RequestedField>, resource: Resource) -> (r: Vec<String>)
    ensures
        texts(r@) == names_under(fields_view(fields@), resource),
{
    let ghost all = fields_view(fields@);
    let mut names: Vec<String> = Vec::new();
    let mut i: usize = 0;
    assert(texts(names@) =~= Seq::empty());
    while i < fields.len()
        invariant
            i <= fields.len(),
            all == fields_view(fields@),
            texts(names@) == names_under(all.take(i as int), resource),
        decreases fields.len() - i,
    {
        assert(all.take(i + 1).drop_last() =~= all.take(i as int));
        assert(all.take(i + 1).last() == fields@[i as int]@);
        let named = match Resource::from_str(fields[i].name.as_str()) {
            Ok(found) => found == resource,
            Err(_) => false,
        };
        if named {
            let ghost before = texts(names@);
            let beneath = &fields[i].selection_set;
            let mut j: usize = 0;
            assert(texts(beneath@).take(0) =~= Seq::empty());
            assert(before + Seq::<Seq<char>>::empty() =~= before);
            while j < beneath.len()
                invariant
                    j <= beneath.len(),
                    texts(names@) == before + texts(beneath@).take(j as int),
                decreases beneath.len() - j,
            {
                let ghost sofar = texts(names@);
                names.push(beneath[j].clone());
                assert(texts(names@) =~= sofar.push(beneath@[j as int]@));
                assert(texts(beneath@).take(j + 1) =~= texts(beneath@).take(j as int).push(
                    beneath@[j as int]@,
                ));
                assert(texts(names@) =~= before + texts(beneath@).take(j + 1));
                j += 1;
            }
            assert(texts(beneath@).take(beneath.len() as int) =~= texts(beneath@));
        }
        i += 1;
    }
    assert(all.take(fields.len() as int) =~= all);
    names
}

impl Selection {
    /// What the names beneath `resource` ask for.
    pub fn of_resource(resource: Resource, names: &Vec<String>) -> (r: Selection)
        ensures
            r@ == selection_of(resource, texts(names@)),
    {
        let ghost all = texts(names@);
        let mut measures: Vec<Measure> = Vec::new();
        let mut dimensions: Vec<String> = Vec::new();
        let mut has_ts = false;
        let mut i: usize = 0;
        assert(all.take(0).filter_map(to_measure(resource)) =~= Seq::empty());
        assert(all.take(0).filter_map(to_dimension(resource)) =~= Seq::empty());
        assert(texts(dimensions@) =~= Seq::empty());
        while i < names.len()
            invariant
                i <= names.len(),
                all == texts(names@),
                measures@ == all.take(i as int).filter_map(to_measure(resource)),
                texts(dimensions@) == all.take(i as int).filter_map(to_dimension(resource)),
                has_ts == asks_timestamp(all.take(i as int)),
            decreases names.len() - i,
        {
            let ghost seen = all.take(i as int);
            let ghost next = all.take(i + 1);
            let ghost name = names@[i as int]@;
            let ghost before = texts(dimensions@);
            proof {
                all.lemma_filter_map_take_succ(to_measure(resource), i as int);
                all.lemma_filter_map_take_succ(to_dimension(resource), i as int);
                assert(all[i as int] == name);
                assert(next[i as int] == name);
                assert forall|k: int| 0 <= k < seen.len() implies next[k] == seen[k] by {}
                if asks_timestamp(seen) {
                    let k = choose|k: int|
                        0 <= k < seen.len() && NestedField::parse(#[trigger] seen[k]) == Some(
                            NestedField::Timestamp,
                        );
                    assert(next[k] == seen[k]);
                }
                if asks_timestamp(next) && NestedField::parse(name) != Some(
                    NestedField::Timestamp,
                ) {
                    let k = choose|k: int|
                        0 <= k < next.len() && NestedField::parse(#[trigger] next[k]) == Some(
                            NestedField::Timestamp,
                        );
                    assert(seen[k] == next[k]);
                }
            }
            match NestedField::from_name(names[i].as_str()) {
                Some(NestedField::Count) => {
                    measures.push(Measure::new(resource, Operation::Count));
                },
                Some(NestedField::OrganizationId) => {
                    dimensions.push("projects.organization_id".to_owned());
                    assert(texts(dimensions@) =~= before + seq!["projects.organization_id"@]);
                },
                Some(NestedField::ProjectId) => {
                    dimensions.push(resource.field("project_id"));
                    assert(texts(dimensions@) =~= before + seq![
                        dotted(resource.name(), "project_id"@),
                    ]);
                },
                Some(NestedField::CollectionId) => {
                    dimensions.push(resource.field("collection_id"));
                    assert(texts(dimensions@) =~= before + seq![
                        dotted(resource.name(), "collection_id"@),
                    ]);
                },
                Some(NestedField::Timestamp) => {
                    has_ts = true;
                },
                None => {},
            }
            i += 1;
        }
        assert(all.take(names.len() as int) =~= all);
        Selection { resource, measures, dimensions, has_ts }
    }

    /// The selections of a request: one for each resource that the fields at
    /// its top name, at the place where the resource is first named. A
    /// resource that the request does not name gets no selection, and so no
    /// query; a resource that it names twice gets one selection, and so one
    /// query, for all that is asked beneath its name.
    #[must_use]
    pub fn from_context(fields: &Vec<RequestedField>) -> (r: Vec<Selection>)
        ensures
            selections_view(r@) == selections_of(fields_view(fields@)),
            selects_each_once(selections_view(r@)),
    {
        let ghost all = fields_view(fields@);
        let resources = named_resources(fields);
        let mut selections: Vec<Selection> = Vec::new();
        let mut i: usize = 0;
        while i < resources.len()
            invariant
                i <= resources.len(),
                all == fields_view(fields@),
                resources@ == resources_named(all),
                selections@.len() == i,
                forall|k: int|
                    0 <= k < i ==> (#[trigger] selections@[k])@ == selection_of(
                        resources@[k],
                        names_under(all, resources@[k]),
                    ),
            decreases resources.len() - i,
        {
            let names = gathered_names(fields, resources[i]);
            selections.push(Selection::of_resource(resources[i], &names));
            i += 1;
        }
        proof {
            assert(selections_view(selections@) =~= selections_of(all));
            lemma_selections_cover(all);
        }
        selections
    }

    /// Whether one of the selections asks for a time series.
    pub fn any_timestamp(selections: &Vec<Selection>) -> (r: bool)
        ensures
            r == exists|i: int| 0 <= i < selections@.len() && (#[trigger] selections@[i]).has_ts,
    {
        let mut i: usize = 0;
        while i < selections.len()
            invariant
                i <= selections.len(),
                forall|k: int| 0 <= k < i ==> !(#[trigger] selections@[k]).has_ts,
            decreases selections.len() - i,
        {
            if selections[i].has_ts {
                return true;
            }
            i += 1;
        }
        false
    }
}

} // verus!
