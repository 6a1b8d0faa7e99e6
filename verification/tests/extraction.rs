use daily_steps::providers::google::extract::{collect_leaves, sum_leaves};
use daily_steps::providers::google::fitness_v1_types::{
    AggregateBucket, AggregateResponse, DataPoint, Dataset, Value,
};
use daily_steps::providers::google::GoogleFitProvider;
use daily_steps::providers::{steps_message, FitError, Level};

fn provider() -> GoogleFitProvider {
    GoogleFitProvider { client_secret_path: String::from("client_secret.json") }
}

fn whole(n: i32) -> Value {
    Value { int_val: Some(n) }
}

fn point(values: Vec<Value>) -> DataPoint {
    DataPoint { value: Some(values) }
}

fn dataset(points: Vec<DataPoint>) -> Dataset {
    Dataset { point: Some(points) }
}

fn bucket(datasets: Vec<Dataset>) -> AggregateBucket {
    AggregateBucket { dataset: Some(datasets) }
}

fn response(buckets: Vec<AggregateBucket>) -> AggregateResponse {
    AggregateResponse { bucket: Some(buckets) }
}

fn flat(values: Vec<i32>) -> AggregateResponse {
    response(vec![bucket(vec![dataset(vec![point(values.into_iter().map(whole).collect())])])])
}

#[test]
fn two_points_of_one_value_each_add_up() {
    let resp = response(vec![bucket(vec![dataset(vec![
        point(vec![whole(150)]),
        point(vec![whole(320)]),
    ])])]);
    assert_eq!(provider().get_step_count_from_resp(resp), Ok(470));
}

#[test]
fn printed_line_holds_the_count() {
    let resp = response(vec![bucket(vec![dataset(vec![
        point(vec![whole(150)]),
        point(vec![whole(320)]),
    ])])]);
    let n = provider().get_step_count_from_resp(resp).unwrap();
    let line = steps_message(n);
    assert_eq!(line, "You have taken 470 steps today!");
    assert!(line.contains("470"));
    assert_eq!(steps_message(-13), "You have taken -13 steps today!");
    assert_eq!(steps_message(0), "You have taken 0 steps today!");
}

#[test]
fn values_spread_over_every_level_add_up() {
    let resp = response(vec![
        bucket(vec![
            dataset(vec![point(vec![whole(1), whole(2)]), point(vec![whole(3)])]),
            dataset(vec![point(vec![whole(40)])]),
        ]),
        bucket(vec![]),
        bucket(vec![dataset(vec![]), dataset(vec![point(vec![]), point(vec![whole(500)])])]),
    ]);
    assert_eq!(collect_leaves(&resp), Ok(vec![1, 2, 3, 40, 500]));
    assert_eq!(provider().get_step_count_from_resp(resp), Ok(546));
}

#[test]
fn order_of_values_does_not_change_the_sum() {
    let a = flat(vec![7, 0, 1200, 35, 35]);
    let b = flat(vec![35, 1200, 35, 7, 0]);
    let c = response(vec![
        bucket(vec![dataset(vec![point(vec![whole(1200)])])]),
        bucket(vec![dataset(vec![point(vec![whole(35), whole(0)]), point(vec![whole(7), whole(35)])])]),
    ]);
    assert_eq!(provider().get_step_count_from_resp(a), Ok(1277));
    assert_eq!(provider().get_step_count_from_resp(b), Ok(1277));
    assert_eq!(provider().get_step_count_from_resp(c), Ok(1277));
}

#[test]
fn zero_buckets_give_zero() {
    assert_eq!(provider().get_step_count_from_resp(response(vec![])), Ok(0));
}

#[test]
fn zero_datasets_give_zero() {
    assert_eq!(provider().get_step_count_from_resp(response(vec![bucket(vec![])])), Ok(0));
}

#[test]
fn zero_points_give_zero() {
    let resp = response(vec![bucket(vec![dataset(vec![])])]);
    assert_eq!(provider().get_step_count_from_resp(resp), Ok(0));
}

#[test]
fn zero_values_give_zero() {
    let resp = response(vec![bucket(vec![dataset(vec![point(vec![])])])]);
    assert_eq!(provider().get_step_count_from_resp(resp), Ok(0));
}

#[test]
fn absent_bucket_list_is_malformed() {
    let resp = AggregateResponse { bucket: None };
    assert_eq!(
        provider().get_step_count_from_resp(resp),
        Err(FitError::MalformedResponse(Level::BucketList))
    );
}

#[test]
fn absent_dataset_list_is_malformed() {
    let resp = response(vec![bucket(vec![]), AggregateBucket { dataset: None }]);
    assert_eq!(
        provider().get_step_count_from_resp(resp),
        Err(FitError::MalformedResponse(Level::DatasetList))
    );
}

#[test]
fn absent_point_list_is_malformed() {
    let resp = response(vec![bucket(vec![dataset(vec![]), Dataset { point: None }])]);
    assert_eq!(
        provider().get_step_count_from_resp(resp),
        Err(FitError::MalformedResponse(Level::PointList))
    );
}

#[test]
fn absent_value_list_is_malformed() {
    let resp = response(vec![bucket(vec![dataset(vec![
        point(vec![whole(10)]),
        DataPoint { value: None },
    ])])]);
    assert_eq!(
        provider().get_step_count_from_resp(resp),
        Err(FitError::MalformedResponse(Level::ValueList))
    );
}

#[test]
fn value_without_integer_is_malformed() {
    let resp = response(vec![bucket(vec![dataset(vec![point(vec![
        whole(10),
        Value { int_val: None },
        whole(20),
    ])])])]);
    assert_eq!(
        provider().get_step_count_from_resp(resp),
        Err(FitError::MalformedResponse(Level::IntValue))
    );
}

#[test]
fn first_absence_met_is_reported() {
    let resp = response(vec![
        bucket(vec![dataset(vec![point(vec![Value { int_val: None }]), DataPoint { value: None }])]),
        AggregateBucket { dataset: None },
    ]);
    assert_eq!(collect_leaves(&resp), Err(Level::IntValue));
    let resp = response(vec![
        bucket(vec![dataset(vec![DataPoint { value: None }, point(vec![Value { int_val: None }])])]),
        AggregateBucket { dataset: None },
    ]);
    assert_eq!(collect_leaves(&resp), Err(Level::ValueList));
}

#[test]
fn absence_wins_over_overflow() {
    let resp = response(vec![bucket(vec![dataset(vec![
        point(vec![whole(i32::MAX), whole(1)]),
        DataPoint { value: None },
    ])])]);
    assert_eq!(
        provider().get_step_count_from_resp(resp),
        Err(FitError::MalformedResponse(Level::ValueList))
    );
}

#[test]
fn largest_count_is_returned() {
    assert_eq!(provider().get_step_count_from_resp(flat(vec![i32::MAX - 5, 5])), Ok(i32::MAX));
}

#[test]
fn count_out_of_range_overflows() {
    assert_eq!(
        provider().get_step_count_from_resp(flat(vec![i32::MAX, 1])),
        Err(FitError::StepCountOverflow)
    );
    assert_eq!(sum_leaves(&vec![i32::MIN, -1]), Err(FitError::StepCountOverflow));
}

#[test]
fn running_total_may_leave_the_range() {
    assert_eq!(sum_leaves(&vec![i32::MAX, 1, -1]), Ok(i32::MAX));
    assert_eq!(sum_leaves(&vec![i32::MAX, -1, 1]), Ok(i32::MAX));
    assert_eq!(sum_leaves(&vec![i32::MIN, -1, 1]), Ok(i32::MIN));
    assert_eq!(sum_leaves(&vec![i32::MAX, i32::MAX, i32::MAX, i32::MIN, i32::MIN]), Ok(i32::MAX - 2));
    assert_eq!(
        provider().get_step_count_from_resp(flat(vec![i32::MAX, 1, -1])),
        Ok(i32::MAX)
    );
    assert_eq!(
        provider().get_step_count_from_resp(flat(vec![-1, 1, i32::MAX])),
        Ok(i32::MAX)
    );
}

#[test]
fn sum_out_of_range_overflows_in_any_order() {
    assert_eq!(sum_leaves(&vec![i32::MAX, 5, -4]), Err(FitError::StepCountOverflow));
    assert_eq!(sum_leaves(&vec![-4, 5, i32::MAX]), Err(FitError::StepCountOverflow));
    assert_eq!(sum_leaves(&vec![5, -4, i32::MAX]), Err(FitError::StepCountOverflow));
}

#[test]
fn negative_values_are_added_too() {
    assert_eq!(provider().get_step_count_from_resp(flat(vec![10, -3, -20])), Ok(-13));
}

#[test]
fn sum_of_nothing_is_zero() {
    assert_eq!(sum_leaves(&Vec::new()), Ok(0));
}

#[test]
fn answer_of_the_service_is_read() {
    let resp = response(vec![bucket(vec![dataset(vec![
        point(vec![whole(150)]),
        point(vec![whole(320)]),
    ])])]);
    assert_eq!(provider().steps_from_answer(Ok(resp)), Ok(470));
    assert_eq!(
        provider().steps_from_answer(Ok(AggregateResponse { bucket: None })),
        Err(FitError::MalformedResponse(Level::BucketList))
    );
}

#[test]
fn failure_of_the_transport_is_handed_on() {
    assert_eq!(
        provider().steps_from_answer(Err(String::from("connection reset"))),
        Err(FitError::Transport(String::from("connection reset")))
    );
}

#[test]
fn empty_lists_in_any_mixture_give_zero() {
    let resp = response(vec![
        bucket(vec![]),
        bucket(vec![dataset(vec![]), dataset(vec![point(vec![]), point(vec![])])]),
        bucket(vec![dataset(vec![point(vec![])])]),
    ]);
    assert_eq!(collect_leaves(&resp), Ok(vec![]));
    assert_eq!(provider().get_step_count_from_resp(resp), Ok(0));
}
