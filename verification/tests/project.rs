use holaplex_hub_analytics::{
    CustomerDataPoint, DecodeFault, Error, Id, Interval, Json, Member, MintDataPoint, Order,
    Project, ProjectAnalytics, Timestamp,
};

const PROJECT: Id = Id { bits: 0x936da01f_9abd_4d9d_80c7_02af85c822a8 };
const NEW_YEAR: Timestamp = Timestamp { secs: 1_704_067_200, nanos: 0 };

fn text(s: &str) -> Json {
    Json::Text(s.to_string())
}

fn object(members: Vec<(&str, Json)>) -> Json {
    Json::Object(
        members.into_iter().map(|(key, value)| Member { key: key.to_string(), value }).collect(),
    )
}

fn response(rows: Vec<Json>) -> Json {
    object(vec![("results", Json::Array(vec![object(vec![("data", Json::Array(rows))])]))])
}

#[test]
fn the_analytics_of_a_project_are_about_that_project() {
    let project = Project { id: PROJECT };
    assert_eq!(
        project.analytics(Some(Interval::LastMonth), Some(Order::Asc), Some(3)),
        ProjectAnalytics {
            id: PROJECT,
            interval: Some(Interval::LastMonth),
            order: Some(Order::Asc),
            limit: Some(3)
        }
    );
    assert_eq!(
        project.analytics(None, None, None),
        ProjectAnalytics { id: PROJECT, interval: None, order: None, limit: None }
    );
}

#[test]
fn a_row_of_mints_is_read_by_its_four_names() {
    let row = object(vec![
        ("mints.count", text("12")),
        ("mints.timestamp", text("2024-01-01T00:00:00.000")),
        ("mints.collection_id", text("00000000-0000-0000-0000-000000000007")),
        ("mints.project_id", text("936da01f-9abd-4d9d-80c7-02af85c822a8")),
        ("projects.organization_id", text("not read")),
    ]);
    assert_eq!(
        MintDataPoint::from_row(&row),
        Ok(MintDataPoint {
            count: Some(12),
            timestamp: Some(NEW_YEAR),
            collection_id: Some(Id { bits: 7 }),
            project_id: Some(PROJECT),
        })
    );
    assert_eq!(
        MintDataPoint::from_row(&object(vec![])),
        Ok(MintDataPoint { count: None, timestamp: None, collection_id: None, project_id: None })
    );
}

#[test]
fn a_row_of_customers_is_read_by_its_three_names() {
    let row = object(vec![
        ("customers.count", text("2")),
        ("customers.timestamp", text("2024-01-01T00:00:00.000Z")),
        ("customers.project_id", Json::Null),
        ("mints.count", text("12")),
    ]);
    assert_eq!(
        CustomerDataPoint::from_row(&row),
        Ok(CustomerDataPoint { count: Some(2), timestamp: Some(NEW_YEAR), project_id: None })
    );
}

#[test]
fn the_first_fault_of_a_typed_row_is_reported() {
    let row = object(vec![
        ("mints.count", text("1")),
        ("mints.timestamp", text("never")),
        ("mints.collection_id", text("nothing")),
    ]);
    assert_eq!(MintDataPoint::from_row(&row), Err(Error::DecodeError(DecodeFault::Timestamp)));
    let row = object(vec![("mints.count", Json::Bool(true)), ("mints.timestamp", text("never"))]);
    assert_eq!(MintDataPoint::from_row(&row), Err(Error::DecodeError(DecodeFault::Count)));
    let row = object(vec![("mints.project_id", text("nobody"))]);
    assert_eq!(MintDataPoint::from_row(&row), Err(Error::DecodeError(DecodeFault::Id)));
    let row = object(vec![("customers.project_id", text("nobody")), ("customers.count", text("x"))]);
    assert_eq!(CustomerDataPoint::from_row(&row), Err(Error::DecodeError(DecodeFault::Count)));
    let row = object(vec![("customers.project_id", text("nobody"))]);
    assert_eq!(CustomerDataPoint::from_row(&row), Err(Error::DecodeError(DecodeFault::Id)));
    assert_eq!(MintDataPoint::from_row(&Json::Null), Err(Error::DecodeError(DecodeFault::Row)));
    assert_eq!(
        CustomerDataPoint::from_row(&Json::Array(vec![])),
        Err(Error::DecodeError(DecodeFault::Row))
    );
}

#[test]
fn typed_rows_are_read_in_the_order_of_the_response() {
    let doc = response(vec![
        object(vec![("mints.count", text("1")), ("customers.count", text("10"))]),
        object(vec![("mints.count", text("2")), ("customers.count", text("20"))]),
    ]);
    let mints: Vec<Option<u64>> =
        MintDataPoint::from_json(&doc).unwrap().iter().map(|row| row.count).collect();
    let customers: Vec<Option<u64>> =
        CustomerDataPoint::from_json(&doc).unwrap().iter().map(|row| row.count).collect();
    assert_eq!(mints, vec![Some(1), Some(2)]);
    assert_eq!(customers, vec![Some(10), Some(20)]);
}

#[test]
fn one_bad_typed_row_fails_the_response() {
    let doc = response(vec![
        object(vec![("mints.count", text("1")), ("customers.count", text("1"))]),
        object(vec![("mints.count", text("two")), ("customers.timestamp", text("two"))]),
        Json::Null,
    ]);
    assert_eq!(MintDataPoint::from_json(&doc), Err(Error::DecodeError(DecodeFault::Count)));
    assert_eq!(CustomerDataPoint::from_json(&doc), Err(Error::DecodeError(DecodeFault::Timestamp)));
    assert_eq!(
        MintDataPoint::from_json(&object(vec![])),
        Err(Error::DecodeError(DecodeFault::NoResults))
    );
    assert_eq!(
        CustomerDataPoint::from_json(&object(vec![("results", Json::Array(vec![Json::Null]))])),
        Err(Error::DecodeError(DecodeFault::NoData))
    );
}

#[test]
fn typed_rows_are_read_from_the_text_of_a_response() {
    let response = r#"{"results":[{"data":[{"mints.count":"5","customers.count":"6"}]}]}"#;
    assert_eq!(
        MintDataPoint::from_response(response),
        Ok(vec![MintDataPoint {
            count: Some(5),
            timestamp: None,
            collection_id: None,
            project_id: None
        }])
    );
    assert_eq!(
        CustomerDataPoint::from_response(response),
        Ok(vec![CustomerDataPoint { count: Some(6), timestamp: None, project_id: None }])
    );
    assert_eq!(
        MintDataPoint::from_response("not json"),
        Err(Error::DecodeError(DecodeFault::Syntax))
    );
    assert_eq!(
        CustomerDataPoint::from_response(""),
        Err(Error::DecodeError(DecodeFault::Syntax))
    );
}
