use holaplex_hub_analytics::{
    Measure, NestedField, Operation, RequestedField, Resource, Selection,
};

fn field(name: &str, nested: &[&str]) -> RequestedField {
    RequestedField {
        name: name.to_string(),
        selection_set: nested.iter().map(|n| n.to_string()).collect(),
    }
}

#[test]
fn count_and_timestamp_of_mints() {
    let selections = Selection::from_context(&vec![field("mints", &["count", "timestamp"])]);
    assert_eq!(
        selections,
        vec![Selection {
            resource: Resource::Mints,
            measures: vec![Measure::new(Resource::Mints, Operation::Count)],
            dimensions: vec![],
            has_ts: true,
        }]
    );
}

#[test]
fn groupings_are_fields_of_the_resource_but_for_the_organization() {
    let selections = Selection::from_context(&vec![field(
        "customers",
        &["organizationId", "projectId", "collectionId"],
    )]);
    assert_eq!(
        selections,
        vec![Selection {
            resource: Resource::Customers,
            measures: vec![],
            dimensions: vec![
                "projects.organization_id".to_string(),
                "customers.project_id".to_string(),
                "customers.collection_id".to_string(),
            ],
            has_ts: false,
        }]
    );
}

#[test]
fn unknown_nested_fields_are_passed_over() {
    let selections = Selection::from_context(&vec![field(
        "wallets",
        &["__typename", "count", "Count", "total", "timestamps", ""],
    )]);
    assert_eq!(
        selections,
        vec![Selection {
            resource: Resource::Wallets,
            measures: vec![Measure::new(Resource::Wallets, Operation::Count)],
            dimensions: vec![],
            has_ts: false,
        }]
    );
}

#[test]
fn fields_that_are_no_resource_give_no_selection() {
    let selections = Selection::from_context(&vec![
        field("__typename", &[]),
        field("credits", &["count"]),
        field("Mints", &["count"]),
        field("timestamp", &[]),
    ]);
    assert_eq!(
        selections,
        vec![Selection {
            resource: Resource::Credits,
            measures: vec![Measure::new(Resource::Credits, Operation::Count)],
            dimensions: vec![],
            has_ts: false,
        }]
    );
}

#[test]
fn no_fields_give_no_selection() {
    assert_eq!(Selection::from_context(&vec![]), vec![]);
}

#[test]
fn a_resource_without_nested_fields_gives_an_empty_selection() {
    assert_eq!(
        Selection::from_context(&vec![field("projects", &[])]),
        vec![Selection {
            resource: Resource::Projects,
            measures: vec![],
            dimensions: vec![],
            has_ts: false,
        }]
    );
}

#[test]
fn selections_come_in_the_order_of_the_fields() {
    let selections = Selection::from_context(&vec![
        field("transfers", &["timestamp"]),
        field("mints", &["count"]),
        field("webhooks", &["projectId", "count"]),
    ]);
    let resources: Vec<Resource> = selections.iter().map(|s| s.resource).collect();
    assert_eq!(resources, vec![Resource::Transfers, Resource::Mints, Resource::Webhooks]);
    assert_eq!(selections[2].dimensions, vec!["webhooks.project_id".to_string()]);
    assert!(selections[0].has_ts);
    assert!(!selections[1].has_ts);
}

#[test]
fn a_resource_that_is_named_twice_has_one_selection() {
    let selections = Selection::from_context(&vec![
        field("mints", &["count"]),
        field("customers", &["projectId"]),
        field("mints", &["timestamp", "collectionId"]),
        field("other", &["count"]),
        field("customers", &["count"]),
        field("mints", &[]),
    ]);
    assert_eq!(
        selections,
        vec![
            Selection {
                resource: Resource::Mints,
                measures: vec![Measure::new(Resource::Mints, Operation::Count)],
                dimensions: vec!["mints.collection_id".to_string()],
                has_ts: true,
            },
            Selection {
                resource: Resource::Customers,
                measures: vec![Measure::new(Resource::Customers, Operation::Count)],
                dimensions: vec!["customers.project_id".to_string()],
                has_ts: false,
            },
        ]
    );
}

#[test]
fn no_two_selections_are_for_the_same_resource() {
    let names = ["mints", "credits", "mints", "x", "wallets", "credits", "mints", "wallets"];
    let fields: Vec<RequestedField> = names.iter().map(|name| field(name, &["count"])).collect();
    let selections = Selection::from_context(&fields);
    let resources: Vec<Resource> = selections.iter().map(|s| s.resource).collect();
    assert_eq!(resources, vec![Resource::Mints, Resource::Credits, Resource::Wallets]);
    assert_eq!(selections[0].measures.len(), 3);
    assert_eq!(selections[1].measures.len(), 2);
    assert_eq!(selections[2].measures.len(), 2);
}

#[test]
fn a_name_that_comes_twice_counts_twice() {
    let selection = Selection::of_resource(
        Resource::Mints,
        &vec!["count".to_string(), "projectId".to_string(), "count".to_string()],
    );
    assert_eq!(
        selection.measures,
        vec![
            Measure::new(Resource::Mints, Operation::Count),
            Measure::new(Resource::Mints, Operation::Count)
        ]
    );
    assert_eq!(selection.dimensions, vec!["mints.project_id".to_string()]);
}

#[test]
fn nested_field_names_are_read() {
    assert_eq!(NestedField::from_name("count"), Some(NestedField::Count));
    assert_eq!(NestedField::from_name("organizationId"), Some(NestedField::OrganizationId));
    assert_eq!(NestedField::from_name("projectId"), Some(NestedField::ProjectId));
    assert_eq!(NestedField::from_name("collectionId"), Some(NestedField::CollectionId));
    assert_eq!(NestedField::from_name("timestamp"), Some(NestedField::Timestamp));
    assert_eq!(NestedField::from_name("project_id"), None);
    assert_eq!(NestedField::from_name(""), None);
}

#[test]
fn a_time_series_is_asked_for_where_one_selection_asks() {
    let none = Selection::from_context(&vec![field("mints", &["count"]), field("credits", &[])]);
    assert!(!Selection::any_timestamp(&none));
    let one = Selection::from_context(&vec![
        field("mints", &["count"]),
        field("credits", &["timestamp"]),
    ]);
    assert!(Selection::any_timestamp(&one));
    assert!(!Selection::any_timestamp(&vec![]));
}
