//! The values exchanged with the fitness service's aggregate endpoint, as far
//! as a step-count query fills or reads them.

use vstd::prelude::*;

verus! {

/// Path parameters of an aggregate call.
#[derive(Clone, Debug, PartialEq, Eq)]
pub struct UsersDatasetAggregateParams {
    /// Whose data is asked for; `me` stands for the authenticated user.
    pub user_id: String,
}

/// One stream of data to aggregate.
#[derive(Clone, Debug, PartialEq, Eq)]
pub struct AggregateBy {
    pub data_source_id: Option<String>,
    pub data_type_name: Option<String>,
}

/// Buckets of a fixed width in time.
#[derive(Clone, Debug, PartialEq, Eq)]
pub struct BucketByTime {
    /// The width of a bucket in milliseconds, in decimal.
    pub duration_millis: Option<String>,
}

/// An aggregation query over a span of time.
#[derive(Clone, Debug, PartialEq, Eq)]
pub struct AggregateRequest {
    pub aggregate_by: Option<Vec<AggregateBy>>,
    pub bucket_by_time: Option<BucketByTime>,
    /// Start of the span, milliseconds since the epoch, in decimal.
    pub start_time_millis: Option<String>,
    /// End of the span, milliseconds since the epoch, in decimal.
    pub end_time_millis: Option<String>,
}

/// What an `AggregateBy` holds, as text.
pub ghost struct AggregateByView {
    pub data_source_id: Option<Seq<char>>,
    pub data_type_name: Option<Seq<char>>,
}

/// What an `AggregateRequest` holds, as text.
pub ghost struct AggregateRequestView {
    pub aggregate_by: Option<Seq<AggregateByView>>,
    pub bucket_duration_millis: Option<Option<Seq<char>>>,
    pub start_time_millis: Option<Seq<char>>,
    pub end_time_millis: Option<Seq<char>>,
}

/// The text of an optional string.
pub open spec fn text_of(s: Option<String>) -> Option<Seq<char>> {
    match s {
        Some(t) => Some(t@),
        None => None,
    }
}

impl View for AggregateBy {
    type V = AggregateByView;

    open spec fn view(&self) -> AggregateByView {
        AggregateByView {
            data_source_id: text_of(self.data_source_id),
            data_type_name: text_of(self.data_type_name),
        }
    }
}

impl View for AggregateRequest {
    type V = AggregateRequestView;

    open spec fn view(&self) -> AggregateRequestView {
        AggregateRequestView {
            aggregate_by: match self.aggregate_by {
                Some(v) => Some(Seq::new(v@.len(), |i: int| v@[i]@)),
                None => None,
            },
            bucket_duration_millis: match self.bucket_by_time {
                Some(b) => Some(text_of(b.duration_millis)),
                None => None,
            },
            start_time_millis: text_of(self.start_time_millis),
            end_time_millis: text_of(self.end_time_millis),
        }
    }
}

/// The leaf of an answer: a number, held as an integer where it is one.
#[derive(Clone, Debug, PartialEq, Eq)]
pub struct Value {
    /// Absent where the value is not an integer.
    pub int_val: Option<i32>,
}

/// One sample: a list of values.
#[derive(Clone, Debug, PartialEq, Eq)]
pub struct DataPoint {
    pub value: Option<Vec<Value>>,
}

/// The points of one data source.
#[derive(Clone, Debug, PartialEq, Eq)]
pub struct Dataset {
    pub point: Option<Vec<DataPoint>>,
}

/// The datasets that fall into one span of time.
#[derive(Clone, Debug, PartialEq, Eq)]
pub struct AggregateBucket {
    pub dataset: Option<Vec<Dataset>>,
}

/// The answer to an aggregation query.
#[derive(Clone, Debug, PartialEq, Eq)]
pub struct AggregateResponse {
    pub bucket: Option<Vec<AggregateBucket>>,
}

} // verus!
