use daily_steps::decimal::{magnitude_to_string, to_decimal_string};
use daily_steps::providers::google::fitness_v1_types::{AggregateBy, AggregateRequest, BucketByTime};
use daily_steps::providers::google::window::TimeWindow;
use daily_steps::providers::google::{
    GoogleFitProvider, CURRENT_USER_ID, GOOGLE_FIT_DATA_SOURCE_ID, GOOGLE_FIT_STEPS_DATATYPE_NAME,
};

fn fit() -> GoogleFitProvider {
    GoogleFitProvider { client_secret_path: String::from("client_secret.json") }
}

#[test]
fn decimal_of_zero() {
    assert_eq!(to_decimal_string(0), "0");
    assert_eq!(magnitude_to_string(0), "0");
}

#[test]
fn decimal_of_positive_numbers() {
    assert_eq!(to_decimal_string(7), "7");
    assert_eq!(to_decimal_string(10), "10");
    assert_eq!(to_decimal_string(1_000_000_000_555), "1000000000555");
    assert_eq!(to_decimal_string(i64::MAX), "9223372036854775807");
    assert_eq!(magnitude_to_string(u64::MAX), "18446744073709551615");
}

#[test]
fn decimal_of_negative_numbers() {
    assert_eq!(to_decimal_string(-1), "-1");
    assert_eq!(to_decimal_string(-1203), "-1203");
    assert_eq!(to_decimal_string(i64::MIN), "-9223372036854775808");
}

#[test]
fn decimal_agrees_with_the_standard_text() {
    let mut n: i64 = -987_654_321_012;
    while n < 987_654_321_012 {
        assert_eq!(to_decimal_string(n), n.to_string());
        n += 12_345_678_901;
    }
}

#[test]
fn window_width_is_end_minus_start() {
    assert_eq!(
        TimeWindow::new(1_700_000_000_000, 1_700_000_451_000),
        Some(TimeWindow {
            start_millis: 1_700_000_000_000,
            end_millis: 1_700_000_451_000,
            duration_millis: 451_000,
        })
    );
    assert_eq!(
        TimeWindow::new(-5, 12),
        Some(TimeWindow { start_millis: -5, end_millis: 12, duration_millis: 17 })
    );
}

#[test]
fn window_at_midnight_has_width_zero() {
    assert_eq!(
        TimeWindow::new(1_700_000_000_000, 1_700_000_000_000),
        Some(TimeWindow {
            start_millis: 1_700_000_000_000,
            end_millis: 1_700_000_000_000,
            duration_millis: 0,
        })
    );
}

#[test]
fn window_that_ends_before_it_starts_is_none() {
    assert_eq!(TimeWindow::new(5, 4), None);
    assert_eq!(TimeWindow::new(i64::MAX, i64::MIN), None);
}

#[test]
fn window_too_wide_is_none() {
    assert_eq!(TimeWindow::new(-1, i64::MAX), None);
    assert_eq!(TimeWindow::new(i64::MIN, 0), None);
    assert_eq!(
        TimeWindow::new(0, i64::MAX),
        Some(TimeWindow { start_millis: 0, end_millis: i64::MAX, duration_millis: i64::MAX })
    );
}

#[test]
fn window_of_readings() {
    assert_eq!(TimeWindow::from_readings(None, Some(1_700_000_000_000)), None);
    assert_eq!(TimeWindow::from_readings(Some(1_700_000_000_000), None), None);
    assert_eq!(TimeWindow::from_readings(None, None), None);
    assert_eq!(
        TimeWindow::from_readings(Some(1_000), Some(4_000)),
        Some(TimeWindow { start_millis: 1_000, end_millis: 4_000, duration_millis: 3_000 })
    );
    assert_eq!(TimeWindow::from_readings(Some(4_000), Some(1_000)), None);
}

#[test]
fn params_name_the_current_user() {
    assert_eq!(fit().generate_params().user_id, "me");
    assert_eq!(CURRENT_USER_ID, "me");
}

#[test]
fn request_carries_source_bucket_and_ends() {
    let window = TimeWindow::new(1_700_000_000_000, 1_700_000_451_000).unwrap();
    let request = fit().generate_request_for(window);
    assert_eq!(
        request,
        AggregateRequest {
            aggregate_by: Some(vec![AggregateBy {
                data_source_id: Some(String::from(
                    "derived:com.google.step_count.delta:com.google.android.gms:estimated_steps"
                )),
                data_type_name: Some(String::from("com.google.step_count.delta")),
            }]),
            bucket_by_time: Some(BucketByTime { duration_millis: Some(String::from("451000")) }),
            start_time_millis: Some(String::from("1700000000000")),
            end_time_millis: Some(String::from("1700000451000")),
        }
    );
    assert_eq!(
        GOOGLE_FIT_DATA_SOURCE_ID,
        "derived:com.google.step_count.delta:com.google.android.gms:estimated_steps"
    );
    assert_eq!(GOOGLE_FIT_STEPS_DATATYPE_NAME, "com.google.step_count.delta");
}

#[test]
fn request_at_midnight_has_a_bucket_of_width_zero() {
    let window = TimeWindow::new(86_400_000, 86_400_000).unwrap();
    let request = fit().generate_request_for(window);
    assert_eq!(request.bucket_by_time.unwrap().duration_millis, Some(String::from("0")));
    assert_eq!(request.start_time_millis, Some(String::from("86400000")));
    assert_eq!(request.end_time_millis, Some(String::from("86400000")));
    assert_eq!(request.aggregate_by.unwrap().len(), 1);
}

#[test]
fn timestamps_from_readings() {
    assert_eq!(
        fit().generate_timestamps_now_and_midnight(Some(1_700_000_000_000), Some(1_700_000_451_000)),
        Some(TimeWindow {
            start_millis: 1_700_000_000_000,
            end_millis: 1_700_000_451_000,
            duration_millis: 451_000,
        })
    );
    assert_eq!(fit().generate_timestamps_now_and_midnight(None, Some(1_700_000_451_000)), None);
    assert_eq!(fit().generate_timestamps_now_and_midnight(Some(1_700_000_000_000), None), None);
    assert_eq!(fit().generate_timestamps_now_and_midnight(Some(2), Some(1)), None);
}

#[test]
fn request_from_readings() {
    let request =
        fit().generate_request(Some(1_700_000_000_000), Some(1_700_000_451_000)).unwrap();
    assert_eq!(
        request,
        fit().generate_request_for(
            TimeWindow::new(1_700_000_000_000, 1_700_000_451_000).unwrap()
        )
    );
    assert_eq!(request.start_time_millis, Some(String::from("1700000000000")));
    assert_eq!(request.end_time_millis, Some(String::from("1700000451000")));
    assert_eq!(request.bucket_by_time.unwrap().duration_millis, Some(String::from("451000")));
    assert_eq!(fit().generate_request(None, Some(1_700_000_451_000)), None);
    assert_eq!(fit().generate_request(Some(1_700_000_000_000), None), None);
    assert_eq!(fit().generate_request(Some(2), Some(1)), None);
}

#[test]
fn request_at_the_instant_of_midnight() {
    let request = fit().generate_request(Some(86_400_000), Some(86_400_000)).unwrap();
    assert_eq!(request.bucket_by_time.unwrap().duration_millis, Some(String::from("0")));
    assert_eq!(request.start_time_millis, request.end_time_millis);
}

#[test]
#[allow(deprecated)]
fn readings_of_the_clock_give_a_window_within_a_day() {
    let now = chrono::offset::Utc::now().timestamp_millis();
    let midnight = chrono::offset::Local::today()
        .and_hms_milli_opt(0, 0, 0, 0)
        .map(|midnight| midnight.timestamp_millis());
    if let Some(window) = fit().generate_timestamps_now_and_midnight(midnight, Some(now)) {
        assert_eq!(window.end_millis, now);
        assert_eq!(Some(window.start_millis), midnight);
        assert_eq!(window.duration_millis, window.end_millis - window.start_millis);
        assert!(window.duration_millis >= 0);
        // No day is longer than a day and the largest shift of a clock.
        assert!(window.duration_millis <= 27 * 3_600_000);
    }
}

#[test]
fn timestamps_are_midnight_current_and_delta() {
    let window = TimeWindow::new(1_700_000_000_000, 1_700_000_451_000).unwrap();
    assert_eq!(
        window.timestamps(),
        (String::from("1700000000000"), String::from("1700000451000"), String::from("451000"))
    );
}
