use holaplex_hub_analytics::{
    Dimension, Granularity, Interval, Measure, Operation, Order, RangeExpr, Resource,
    ScopeKey, TimeGranularity,
};

const RESOURCES: [(Resource, &str); 8] = [
    (Resource::Mints, "mints"),
    (Resource::Customers, "customers"),
    (Resource::Wallets, "wallets"),
    (Resource::Collections, "collections"),
    (Resource::Projects, "projects"),
    (Resource::Transfers, "transfers"),
    (Resource::Webhooks, "webhooks"),
    (Resource::Credits, "credits"),
];

const INTERVALS: [(Interval, &str, Granularity); 12] = [
    (Interval::All, "all", Granularity::Day),
    (Interval::Today, "today", Granularity::Hour),
    (Interval::Yesterday, "yesterday", Granularity::Hour),
    (Interval::ThisWeek, "this week", Granularity::Day),
    (Interval::ThisMonth, "this month", Granularity::Day),
    (Interval::ThisYear, "this year", Granularity::Month),
    (Interval::Last7Days, "last 7 days", Granularity::Day),
    (Interval::Last30Days, "last 30 days", Granularity::Day),
    (Interval::LastWeek, "last week", Granularity::Day),
    (Interval::LastMonth, "last month", Granularity::Day),
    (Interval::LastQuarter, "last quarter", Granularity::Week),
    (Interval::LastYear, "last year", Granularity::Month),
];

#[test]
fn resources_are_named() {
    for (resource, name) in RESOURCES {
        assert_eq!(resource.as_str(), name);
    }
}

#[test]
fn resource_names_are_read_back() {
    for (resource, name) in RESOURCES {
        assert_eq!(Resource::from_str(name), Ok(resource));
    }
}

#[test]
fn other_names_are_no_resource() {
    assert_eq!(Resource::from_str(""), Err(()));
    assert_eq!(Resource::from_str("Mints"), Err(()));
    assert_eq!(Resource::from_str("mint"), Err(()));
    assert_eq!(Resource::from_str("mints "), Err(()));
    assert_eq!(Resource::from_str("timestamp"), Err(()));
}

#[test]
fn all_resources_are_listed_once() {
    let all = Resource::all();
    assert_eq!(all.len(), 8);
    for (resource, _) in RESOURCES {
        assert_eq!(all.iter().filter(|r| **r == resource).count(), 1);
    }
}

#[test]
fn resource_fields_are_prefixed() {
    assert_eq!(Resource::Mints.field("timestamp"), "mints.timestamp");
    assert_eq!(Resource::Credits.field("project_id"), "credits.project_id");
    assert_eq!(Resource::Wallets.field(""), "wallets.");
}

#[test]
fn operations_are_named() {
    assert_eq!(Operation::Count.as_str(), "count");
    assert_eq!(Operation::Change.as_str(), "change");
}

#[test]
fn measure_is_named_by_resource_and_operation() {
    assert_eq!(Measure::new(Resource::Mints, Operation::Count).as_string(), "mints.count");
    assert_eq!(Measure::new(Resource::Wallets, Operation::Change).as_string(), "wallets.change");
}

#[test]
fn measure_new_keeps_its_arguments() {
    let measure = Measure::new(Resource::Projects, Operation::Change);
    assert_eq!(measure.resource, Resource::Projects);
    assert_eq!(measure.operation, Operation::Change);
}

#[test]
fn every_measure_is_read_back_from_its_name() {
    for (resource, _) in RESOURCES {
        for operation in [Operation::Count, Operation::Change] {
            let measure = Measure::new(resource, operation);
            assert_eq!(Measure::parse(&measure.as_string()), Some(measure));
        }
    }
}

#[test]
fn other_texts_name_no_measure() {
    assert_eq!(Measure::parse(""), None);
    assert_eq!(Measure::parse("mints"), None);
    assert_eq!(Measure::parse("mints."), None);
    assert_eq!(Measure::parse(".count"), None);
    assert_eq!(Measure::parse("mints.total"), None);
    assert_eq!(Measure::parse("mints.count.count"), None);
    assert_eq!(Measure::parse("mints.timestamp"), None);
}

#[test]
fn dimensions_are_named() {
    assert_eq!(Dimension::Collections.as_str(), "collections");
    assert_eq!(Dimension::Projects.as_str(), "projects");
    assert_eq!(Dimension::Organizations.as_str(), "organizations");
}

#[test]
fn orders_are_named() {
    assert_eq!(Order::Asc.as_str(), "asc");
    assert_eq!(Order::Desc.as_str(), "desc");
}

#[test]
fn scope_keys_are_named() {
    assert_eq!(ScopeKey::Organization.as_str(), "organization_id");
    assert_eq!(ScopeKey::Project.as_str(), "project_id");
    assert_eq!(ScopeKey::Collection.as_str(), "collection_id");
}

#[test]
fn granularities_are_named() {
    assert_eq!(Granularity::Hour.as_str(), "hour");
    assert_eq!(Granularity::Day.as_str(), "day");
    assert_eq!(Granularity::Week.as_str(), "week");
    assert_eq!(Granularity::Month.as_str(), "month");
    assert_eq!(Granularity::Year.as_str(), "year");
}

#[test]
fn time_granularities_are_named() {
    assert_eq!(TimeGranularity::Second.as_str(), "second");
    assert_eq!(TimeGranularity::Minute.as_str(), "minute");
    assert_eq!(TimeGranularity::Hour.as_str(), "hour");
    assert_eq!(TimeGranularity::Day.as_str(), "day");
    assert_eq!(TimeGranularity::Week.as_str(), "week");
    assert_eq!(TimeGranularity::Month.as_str(), "month");
    assert_eq!(TimeGranularity::Quarter.as_str(), "quarter");
    assert_eq!(TimeGranularity::Year.as_str(), "year");
}

#[test]
fn the_semantic_layer_is_asked_for_buckets_of_the_same_width() {
    assert_eq!(TimeGranularity::from(Granularity::Hour), TimeGranularity::Hour);
    assert_eq!(TimeGranularity::from(Granularity::Day), TimeGranularity::Day);
    assert_eq!(TimeGranularity::from(Granularity::Week), TimeGranularity::Week);
    assert_eq!(TimeGranularity::from(Granularity::Month), TimeGranularity::Month);
    assert_eq!(TimeGranularity::from(Granularity::Year), TimeGranularity::Year);
    for width in [
        Granularity::Hour,
        Granularity::Day,
        Granularity::Week,
        Granularity::Month,
        Granularity::Year,
    ] {
        assert_eq!(TimeGranularity::from(width).as_str(), width.as_str());
    }
}

#[test]
fn intervals_are_named() {
    for (interval, name, _) in INTERVALS {
        assert_eq!(interval.as_str(), name);
    }
}

#[test]
fn every_interval_has_its_granularity() {
    for (interval, _, granularity) in INTERVALS {
        assert_eq!(interval.to_granularity(), granularity);
    }
}

#[test]
fn the_default_interval_is_today() {
    assert_eq!(Interval::default(), Interval::Today);
}

#[test]
fn all_time_sets_no_date_range() {
    assert_eq!(Interval::All.to_date_range(), RangeExpr::Absolute(vec![]));
}

#[test]
fn every_other_interval_goes_by_its_name() {
    for (interval, name, _) in INTERVALS {
        if interval != Interval::All {
            assert_eq!(interval.to_date_range(), RangeExpr::Relative(name.to_string()));
        }
    }
}
