//! An analytics query compiler and result merger: from the fields a caller
//! asked for to one semantic-layer query per resource, and from the rows that
//! come back to one time-aligned list of data points.

pub mod analytics;
pub mod datapoint;
pub mod error;
pub mod events;
pub mod ident;
pub mod interval;
pub mod json;
pub mod merge;
pub mod project;
pub mod query;
pub mod resource;
pub mod response;
pub mod scope;
pub mod selection;
pub mod text;
pub mod timestamp;
pub mod window;

pub use analytics::{analytics, stats, stats_resource, AnalyticsRequest, Plan};
pub use datapoint::{Data, DataPoint, DataPoints};
pub use error::{DecodeFault, Error};
pub use ident::{Id, UserID};
pub use interval::{Granularity, Interval, Order, RangeExpr, TimeGranularity};
pub use json::{Json, Member};
pub use merge::merge_points;
pub use project::{CustomerDataPoint, MintDataPoint, Project, ProjectAnalytics};
pub use query::{Filter, Query, TimeDimension};
pub use resource::{Dimension, Measure, Operation, Resource};
pub use scope::{parse_id_and_root, Scope, ScopeKey};
pub use selection::{NestedField, RequestedField, Selection};
pub use timestamp::Timestamp;
pub use window::{Date, DateRange, TimeRange, TimeWindow};
