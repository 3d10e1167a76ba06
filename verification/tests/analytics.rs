use holaplex_hub_analytics::{
    analytics, AnalyticsRequest, Data, DataPoint, Date, DateRange, DecodeFault, Error, Filter,
    Granularity, Id, Interval, Measure, Operation, Order, Plan, Query, RangeExpr, RequestedField,
    Resource, Selection, TimeDimension, TimeGranularity, Timestamp,
};

const PROJECT: Id = Id { bits: 0x936da01f_9abd_4d9d_80c7_02af85c822a8 };
const PROJECT_TEXT: &str = "936da01f-9abd-4d9d-80c7-02af85c822a8";
const T1: Timestamp = Timestamp { secs: 1_704_067_200, nanos: 0 };
const T2: Timestamp = Timestamp { secs: 1_704_153_600, nanos: 0 };

const MINTS: &str = r#"{"results":[{"data":[
    {"mints.count":"4","mints.timestamp":"2024-01-01T00:00:00.000"},
    {"mints.count":"6","mints.timestamp":"2024-01-02T00:00:00.000"}]}]}"#;
const CUSTOMERS: &str = r#"{"results":[{"data":[
    {"customers.count":"1","customers.timestamp":"2024-01-01T00:00:00.000"}]}]}"#;

fn field(name: &str, nested: &[&str]) -> RequestedField {
    RequestedField {
        name: name.to_string(),
        selection_set: nested.iter().map(|n| n.to_string()).collect(),
    }
}

fn request(fields: Vec<RequestedField>) -> AnalyticsRequest {
    AnalyticsRequest {
        organization_id: None,
        project_id: Some(PROJECT),
        collection_id: None,
        date_range: DateRange { start: None, end: None, interval: Some(Interval::Last7Days) },
        granularity: None,
        order: None,
        limit: None,
        fields,
    }
}

fn row(count: u64, timestamp: Option<Timestamp>) -> Data {
    Data { count: Some(count), organization_id: None, collection_id: None, project_id: None, timestamp }
}

fn query(resource: &str, granularity: Option<TimeGranularity>) -> Query {
    Query {
        measures: vec![format!("{resource}.count")],
        dimensions: vec![],
        time_dimension: Some(TimeDimension {
            dimension: format!("{resource}.timestamp"),
            granularity,
            date_range: RangeExpr::Relative("last 7 days".to_string()),
        }),
        filters: vec![Filter {
            member: format!("{resource}.project_id"),
            operator: "equals".to_string(),
            values: vec![PROJECT_TEXT.to_string()],
        }],
        order: Some((format!("{resource}.timestamp"), Order::Desc)),
        limit: 100,
    }
}

#[test]
fn one_query_is_planned_for_each_resource_asked_for() {
    let plan = analytics(&request(vec![
        field("mints", &["count", "timestamp"]),
        field("__typename", &[]),
        field("customers", &["count", "timestamp"]),
    ]))
    .unwrap();
    assert_eq!(
        plan,
        Plan {
            selections: vec![
                Selection {
                    resource: Resource::Mints,
                    measures: vec![Measure::new(Resource::Mints, Operation::Count)],
                    dimensions: vec![],
                    has_ts: true,
                },
                Selection {
                    resource: Resource::Customers,
                    measures: vec![Measure::new(Resource::Customers, Operation::Count)],
                    dimensions: vec![],
                    has_ts: true,
                },
            ],
            queries: vec![
                query("mints", Some(TimeGranularity::Day)),
                query("customers", Some(TimeGranularity::Day))
            ],
            use_ts: true,
            order: Order::Desc,
        }
    );
}

#[test]
fn a_request_for_no_resource_plans_no_query() {
    let plan = analytics(&request(vec![field("__typename", &[])])).unwrap();
    assert_eq!(plan, Plan { selections: vec![], queries: vec![], use_ts: false, order: Order::Desc });
    assert_eq!(plan.finish(&vec![]), Ok(vec![DataPoint::new()]));
}

#[test]
fn the_plan_follows_the_order_limit_and_window_of_the_request() {
    let mut asked = request(vec![field("wallets", &["count"])]);
    asked.order = Some(Order::Asc);
    asked.limit = Some(12);
    asked.granularity = Some(Granularity::Year);
    asked.date_range =
        DateRange { start: Date::from_ymd(2023, 1, 1), end: Date::from_ymd(2023, 12, 31), interval: None };
    let plan = analytics(&asked).unwrap();
    assert_eq!(plan.order, Order::Asc);
    assert!(!plan.use_ts);
    assert_eq!(plan.queries.len(), 1);
    assert_eq!(plan.queries[0].limit, 12);
    assert_eq!(plan.queries[0].order, Some(("wallets.timestamp".to_string(), Order::Asc)));
    let time = plan.queries[0].time_dimension.as_ref().unwrap();
    assert_eq!(time.granularity, None);
    assert_eq!(
        time.date_range,
        RangeExpr::Absolute(vec!["2023-01-01".to_string(), "2023-12-31".to_string()])
    );
}

#[test]
fn a_request_without_a_scope_is_refused_before_anything_else() {
    let mut asked = request(vec![field("mints", &["count"])]);
    asked.project_id = None;
    assert_eq!(analytics(&asked), Err(Error::InvalidScope));
    asked.project_id = Some(PROJECT);
    asked.organization_id = Some(PROJECT);
    assert_eq!(analytics(&asked), Err(Error::InvalidScope));
    asked.date_range = DateRange { start: None, end: None, interval: None };
    assert_eq!(analytics(&asked), Err(Error::InvalidScope));
}

#[test]
fn a_request_without_a_time_window_is_refused() {
    let mut asked = request(vec![field("mints", &["count"])]);
    asked.date_range = DateRange { start: None, end: None, interval: None };
    assert_eq!(analytics(&asked), Err(Error::InvalidTimeWindow));
    asked.date_range = DateRange { start: Date::from_ymd(2024, 1, 1), end: None, interval: None };
    assert_eq!(analytics(&asked), Err(Error::InvalidTimeWindow));
}

#[test]
fn two_resources_over_one_window_are_merged_by_timestamp() {
    let mut asked = request(vec![
        field("mints", &["count", "timestamp"]),
        field("customers", &["count", "timestamp"]),
    ]);
    let at_t1 = DataPoint {
        mints: Some(vec![row(4, Some(T1))]),
        customers: Some(vec![row(1, Some(T1))]),
        timestamp: Some(T1),
        ..DataPoint::new()
    };
    let at_t2 =
        DataPoint { mints: Some(vec![row(6, Some(T2))]), timestamp: Some(T2), ..DataPoint::new() };
    let responses = vec![MINTS.to_string(), CUSTOMERS.to_string()];

    let latest_first = analytics(&asked).unwrap().finish(&responses);
    assert_eq!(latest_first, Ok(vec![at_t2.clone(), at_t1.clone()]));

    asked.order = Some(Order::Asc);
    let earliest_first = analytics(&asked).unwrap().finish(&responses);
    assert_eq!(earliest_first, Ok(vec![at_t1, at_t2]));
}

#[test]
fn without_a_timestamp_all_resources_end_in_one_data_point() {
    let asked = request(vec![field("mints", &["count"]), field("customers", &["count"])]);
    let plan = analytics(&asked).unwrap();
    assert!(!plan.use_ts);
    assert_eq!(
        plan.finish(&vec![MINTS.to_string(), CUSTOMERS.to_string()]),
        Ok(vec![DataPoint {
            mints: Some(vec![row(4, Some(T1)), row(6, Some(T2))]),
            customers: Some(vec![row(1, Some(T1))]),
            timestamp: None,
            ..DataPoint::new()
        }])
    );
}

#[test]
fn one_timestamp_among_the_selections_makes_a_time_series() {
    let asked = request(vec![field("mints", &["count"]), field("customers", &["timestamp"])]);
    let plan = analytics(&asked).unwrap();
    assert!(plan.use_ts);
    assert_eq!(plan.queries[0].time_dimension.as_ref().unwrap().granularity, None);
    assert_eq!(
        plan.queries[1].time_dimension.as_ref().unwrap().granularity,
        Some(TimeGranularity::Day)
    );
}

#[test]
fn a_time_series_has_buckets_of_the_width_of_the_interval() {
    for (interval, width) in [
        (Interval::Today, TimeGranularity::Hour),
        (Interval::Yesterday, TimeGranularity::Hour),
        (Interval::All, TimeGranularity::Day),
        (Interval::LastQuarter, TimeGranularity::Week),
        (Interval::ThisYear, TimeGranularity::Month),
    ] {
        let mut asked = request(vec![field("mints", &["count", "timestamp"])]);
        asked.date_range = DateRange { start: None, end: None, interval: Some(interval) };
        let plan = analytics(&asked).unwrap();
        let time = plan.queries[0].time_dimension.as_ref().unwrap();
        assert_eq!(time.granularity, Some(width));
        assert_eq!(time.date_range, RangeExpr::Relative(interval.as_str().to_string()));
    }
}

#[test]
fn a_resource_that_is_asked_for_twice_is_queried_once() {
    let asked = request(vec![
        field("mints", &["count"]),
        field("customers", &["count", "timestamp"]),
        field("mints", &["timestamp"]),
    ]);
    let plan = analytics(&asked).unwrap();
    assert_eq!(plan.queries.len(), 2);
    assert_eq!(plan.selections[0].resource, Resource::Mints);
    assert!(plan.selections[0].has_ts);
    assert_eq!(plan.selections[1].resource, Resource::Customers);
    let merged = plan.finish(&vec![MINTS.to_string(), CUSTOMERS.to_string()]).unwrap();
    assert_eq!(merged.len(), 2);
    assert_eq!(merged[0].mints, Some(vec![row(6, Some(T2))]));
    assert_eq!(merged[1].mints, Some(vec![row(4, Some(T1))]));
    assert_eq!(merged[1].customers, Some(vec![row(1, Some(T1))]));
}

#[test]
fn one_response_that_cannot_be_read_fails_the_request() {
    let plan = analytics(&request(vec![
        field("mints", &["count", "timestamp"]),
        field("customers", &["count", "timestamp"]),
    ]))
    .unwrap();
    assert_eq!(
        plan.finish(&vec![MINTS.to_string(), "oops".to_string()]),
        Err(Error::DecodeError(DecodeFault::Syntax))
    );
    assert_eq!(
        plan.finish(&vec!["{}".to_string(), "oops".to_string()]),
        Err(Error::DecodeError(DecodeFault::NoResults))
    );
    assert_eq!(
        plan.finish(&vec![
            MINTS.to_string(),
            r#"{"results":[{"data":[{"customers.count":"-1"}]}]}"#.to_string()
        ]),
        Err(Error::DecodeError(DecodeFault::Count))
    );
}

#[test]
fn there_is_one_response_for_each_query() {
    let plan = analytics(&request(vec![
        field("mints", &["count", "timestamp"]),
        field("customers", &["count", "timestamp"]),
    ]))
    .unwrap();
    let too_few = vec![MINTS.to_string()];
    let too_many = vec![MINTS.to_string(), CUSTOMERS.to_string(), CUSTOMERS.to_string()];
    assert_eq!(plan.finish(&too_few), Err(Error::DecodeError(DecodeFault::Responses)));
    assert_eq!(plan.finish(&too_many), Err(Error::DecodeError(DecodeFault::Responses)));
    assert_eq!(plan.finish(&vec![]), Err(Error::DecodeError(DecodeFault::Responses)));
}

#[test]
fn a_response_is_read_by_the_resource_of_its_query() {
    let plan = analytics(&request(vec![field("customers", &["count", "timestamp"])])).unwrap();
    let no_data =
        Data { count: None, organization_id: None, collection_id: None, project_id: None, timestamp: None };
    assert_eq!(plan.finish(&vec![MINTS.to_string()]), Ok(vec![]));
    let plan = analytics(&request(vec![field("customers", &["count"])])).unwrap();
    assert_eq!(
        plan.finish(&vec![MINTS.to_string()]),
        Ok(vec![DataPoint { customers: Some(vec![no_data, no_data]), ..DataPoint::new() }])
    );
}

#[test]
fn data_points_that_are_at_hand_are_merged_as_the_plan_says() {
    let plan = Plan { selections: vec![], queries: vec![], use_ts: true, order: Order::Desc };
    let mut early = DataPoint::new();
    early.set(Resource::Mints, &row(1, Some(T1)), Some(T1));
    let mut late = DataPoint::new();
    late.set(Resource::Mints, &row(2, Some(T2)), Some(T2));
    assert_eq!(plan.assemble(&vec![early.clone(), late.clone()]), vec![late, early]);
}

#[test]
fn an_upstream_failure_carries_its_reason() {
    let error = Error::UpstreamError("connection refused".to_string());
    assert_ne!(error, Error::UpstreamError(String::new()));
    assert_ne!(error, Error::DecodeError(DecodeFault::Syntax));
}
