//! The Google Fitness provider: what it needs at startup, the query it sends
//! for today's steps, and the count it reads out of the answer.

pub mod extract;
pub mod fitness_v1_types;
pub mod window;

use vstd::prelude::*;
use vstd::string::*;
use crate::decimal::decimal;
use crate::providers::{message_text, steps_text, ConfigError, FitError};
use crate::providers::google::extract::{collect_leaves, step_count, sum_leaves};
use crate::providers::google::fitness_v1_types::{
    AggregateBy,
    AggregateByView,
    AggregateRequest,
    AggregateRequestView,
    AggregateResponse,
    BucketByTime,
    UsersDatasetAggregateParams,
};
use crate::providers::google::window::{window_between, window_of_readings, TimeWindow};

verus! {

/// The stream of estimated step-count deltas.
pub const GOOGLE_FIT_DATA_SOURCE_ID: &'static str =
    "derived:com.google.step_count.delta:com.google.android.gms:estimated_steps";

/// The type of the data in that stream.
pub const GOOGLE_FIT_STEPS_DATATYPE_NAME: &'static str = "com.google.step_count.delta";

/// The user identifier that stands for the authenticated user.
pub const CURRENT_USER_ID: &'static str = "me";

/// GoogleFitProvider - Interfaces with the Google Fitness API
/// to retrieve daily steps.
#[derive(Clone, Debug, PartialEq, Eq)]
pub struct GoogleFitProvider {
    /// Where the client-secret file lies.
    pub client_secret_path: String,
}

/// The client-secret path to use: the one given, else the one that the
/// environment holds.
pub open spec fn chosen_secret_path(given: Option<String>, from_env: Option<String>) -> Option<
    String,
> {
    match given {
        Some(path) => Some(path),
        None => from_env,
    }
}

/// What the check of a client-secret path comes to, `found` telling whether
/// the path names something on disk: an empty path and one that names nothing
/// are both invalid, and the error holds the path.
pub open spec fn secret_path_verdict(path: String, found: bool) -> Result<(), FitError> {
    if path@.len() > 0 && found {
        Ok(())
    } else {
        Err(FitError::Config(ConfigError::InvalidClientSecretPath(path)))
    }
}

/// The query for the steps taken within `window`: one data source, one
/// bucket as wide as the window, and the window's ends, all numbers in
/// decimal.
pub open spec fn request_for(window: TimeWindow) -> AggregateRequestView {
    AggregateRequestView {
        aggregate_by: Some(
            seq![
                AggregateByView {
                    data_source_id: Some(GOOGLE_FIT_DATA_SOURCE_ID@),
                    data_type_name: Some(GOOGLE_FIT_STEPS_DATATYPE_NAME@),
                },
            ],
        ),
        bucket_duration_millis: Some(Some(decimal(window.duration_millis as int))),
        start_time_millis: Some(decimal(window.start_millis as int)),
        end_time_millis: Some(decimal(window.end_millis as int)),
    }
}

/// Asks `std::path::Path::exists` whether `path` names something on disk.
/// The answer depends on the disk at the moment of the call, so nothing is
/// claimed of it.
#[verifier::external_body]
fn path_exists(path: &str) -> bool {
    std::path::Path::new(path).exists()
}

impl GoogleFitProvider {
    /// The path is not empty.
    pub open spec fn wf(&self) -> bool {
        self.client_secret_path@.len() > 0
    }

    /// Picks the client-secret path: the one given, else the one found in the
    /// environment. With neither, the configuration is incomplete.
    pub fn resolve_client_secret(given: Option<String>, from_env: Option<String>) -> (r: Result<
        String,
        FitError,
    >)
        ensures
            r == (match chosen_secret_path(given, from_env) {
                Some(path) => Ok::<String, FitError>(path),
                None => Err(FitError::Config(ConfigError::MissingClientSecret)),
            }),
    {
        match given {
            Some(path) => Ok(path),
            None => match from_env {
                Some(path) => Ok(path),
                None => Err(FitError::Config(ConfigError::MissingClientSecret)),
            },
        }
    }

    /// Creates a provider for the client secret at `client_secret_path`, or,
    /// where none is given, at `env_secret_path`, the value that the
    /// environment holds for `GOOGLE_CLIENT_SECRET`. Fails where neither is
    /// there, and where the path chosen is empty or names nothing on disk.
    pub fn new(client_secret_path: Option<String>, env_secret_path: Option<String>) -> (r: Result<
        GoogleFitProvider,
        FitError,
    >)
        ensures
            match chosen_secret_path(client_secret_path, env_secret_path) {
                None => r == Err::<GoogleFitProvider, FitError>(
                    FitError::Config(ConfigError::MissingClientSecret),
                ),
                Some(path) => match r {
                    Ok(provider) => provider.client_secret_path == path && provider.wf(),
                    Err(e) => e == FitError::Config(ConfigError::InvalidClientSecretPath(path)),
                },
            },
            chosen_secret_path(client_secret_path, env_secret_path) matches Some(path)
                && path@.len() == 0 ==> r is Err,
    {
        match GoogleFitProvider::resolve_client_secret(client_secret_path, env_secret_path) {
            Err(e) => Err(e),
            Ok(path) => match GoogleFitProvider::validate(path.clone()) {
                Ok(()) => Ok(GoogleFitProvider { client_secret_path: path }),
                Err(e) => Err(e),
            },
        }
    }

    /// What to make of a client-secret path once the disk has been asked.
    pub fn secret_path_outcome(client_secret_path: String, found: bool) -> (r: Result<
        (),
        FitError,
    >)
        ensures
            r == secret_path_verdict(client_secret_path, found),
    {
        if found && !client_secret_path.as_str().is_empty() {
            Ok(())
        } else {
            Err(FitError::Config(ConfigError::InvalidClientSecretPath(client_secret_path)))
        }
    }

    /// Fails unless the path is not empty and names something on disk. The
    /// error holds the path.
    pub fn validate(client_secret_path: String) -> (r: Result<(), FitError>)
        ensures
            r == secret_path_verdict(client_secret_path, true) || r == secret_path_verdict(
                client_secret_path,
                false,
            ),
    {
        let found = GoogleFitProvider::check_client_secret(client_secret_path.clone());
        GoogleFitProvider::secret_path_outcome(client_secret_path, found)
    }

    /// Whether the path is not empty and names something on disk. The disk is
    /// not asked about an empty path.
    pub fn check_client_secret(client_secret_path: String) -> (r: bool)
        ensures
            r ==> client_secret_path@.len() > 0,
    {
        if client_secret_path.as_str().is_empty() {
            false
        } else {
            path_exists(client_secret_path.as_str())
        }
    }

    /// Creates an UserDatasetAggregateParams that requests data about the current user.
    pub fn generate_params(&self) -> (r: UsersDatasetAggregateParams)
        ensures
            r.user_id@ == CURRENT_USER_ID@,
    {
        UsersDatasetAggregateParams { user_id: String::from_str(CURRENT_USER_ID) }
    }

    /// Creates the AggregateRequest which requests all the steps within
    /// `window`, in a single bucket.
    pub fn generate_request_for(&self, window: TimeWindow) -> (r: AggregateRequest)
        ensures
            r@ == request_for(window),
    {
        let mut streams: Vec<AggregateBy> = Vec::new();
        streams.push(
            AggregateBy {
                data_source_id: Some(String::from_str(GOOGLE_FIT_DATA_SOURCE_ID)),
                data_type_name: Some(String::from_str(GOOGLE_FIT_STEPS_DATATYPE_NAME)),
            },
        );
        let (midnight, current, delta) = window.timestamps();
        let r = AggregateRequest {
            aggregate_by: Some(streams),
            bucket_by_time: Some(BucketByTime { duration_millis: Some(delta) }),
            start_time_millis: Some(midnight),
            end_time_millis: Some(current),
        };
        assert(r@.aggregate_by->Some_0 =~= request_for(window).aggregate_by->Some_0);
        r
    }

    /// Creates an AggregateRequest which requests all the steps between the current time
    /// and the start of the current day (based on the current timezone), from
    /// the two readings of the clock. There is none where the readings give
    /// no window.
    pub fn generate_request(&self, midnight: Option<i64>, now: Option<i64>) -> (r: Option<
        AggregateRequest,
    >)
        ensures
            match window_of_readings(midnight, now) {
                Some(window) => r matches Some(request) && request@ == request_for(window),
                None => r is None,
            },
    {
        match self.generate_timestamps_now_and_midnight(midnight, now) {
            Some(window) => Some(self.generate_request_for(window)),
            None => None,
        }
    }

    /// Makes the window from local midnight to now out of the two readings
    /// of the clock.
    /// `start_millis` is the UNIX timestamp of midnight (where "midnight" is relative to the local timezone).
    /// `end_millis` is the current UNIX timestamp.
    /// `duration_millis` is the number of milliseconds between the two timestamps.
    /// Across a change of the clock's offset the width still counts the
    /// milliseconds that passed, not the hours on the wall. There is no window
    /// where a reading is missing or the readings are out of order.
    pub fn generate_timestamps_now_and_midnight(
        &self,
        midnight: Option<i64>,
        now: Option<i64>,
    ) -> (r: Option<TimeWindow>)
        ensures
            r == window_of_readings(midnight, now),
            r matches Some(window) ==> window.wf(),
    {
        TimeWindow::from_readings(midnight, now)
    }

    /// What a query comes to once the service has been asked: a failure of
    /// the transport is handed on with its cause, and an answer is read for
    /// its step count.
    pub fn steps_from_answer(&self, answer: Result<AggregateResponse, String>) -> (r: Result<
        i32,
        FitError,
    >)
        ensures
            r == (match answer {
                Ok(resp) => step_count(resp),
                Err(cause) => Err(FitError::Transport(cause)),
            }),
    {
        match answer {
            Ok(resp) => self.get_step_count_from_resp(resp),
            Err(cause) => Err(FitError::Transport(cause)),
        }
    }

    /// Extracts the steps from AggregateResponse. Assumes the appropriate AggregateRequest was sent.
    /// The count is the sum of every integer value in the answer; an answer
    /// that lacks a list or an integer is malformed.
    pub fn get_step_count_from_resp(&self, resp: AggregateResponse) -> (r: Result<i32, FitError>)
        ensures
            r == step_count(resp),
    {
        match collect_leaves(&resp) {
            Ok(leaves) => sum_leaves(&leaves),
            Err(level) => Err(FitError::MalformedResponse(level)),
        }
    }
}

/// Asked at the very instant of local midnight, the window has width zero
/// and is still one: the query for it names the data source and asks for a
/// single bucket of width `0` between two equal ends.
pub proof fn lemma_zero_width_request(instant: i64)
    ensures
        window_between(instant, instant) == Some(
            TimeWindow { start_millis: instant, end_millis: instant, duration_millis: 0 },
        ),
        window_between(instant, instant) matches Some(window) && window.wf() && ({
            let request = request_for(window);
            &&& request.bucket_duration_millis == Some(Some(seq!['0']))
            &&& request.start_time_millis == Some(decimal(instant as int))
            &&& request.end_time_millis == request.start_time_millis
            &&& request.aggregate_by matches Some(streams) && streams.len() == 1
        }),
        window_of_readings(Some(instant), Some(instant)) == window_between(instant, instant),
{
    assert(decimal(0) =~= seq!['0']);
}

/// A client-secret path that names nothing on disk is refused, whatever it
/// is, and the message for the refusal ends in that exact path.
pub proof fn lemma_refused_path_is_named(path: String)
    ensures
        secret_path_verdict(path, false) == Err::<(), FitError>(
            FitError::Config(ConfigError::InvalidClientSecretPath(path)),
        ),
        ({
            let message = message_text(
                FitError::Config(ConfigError::InvalidClientSecretPath(path)),
            );
            &&& message.len() >= path@.len()
            &&& message.subrange(message.len() - path@.len(), message.len() as int) == path@
        }),
{
    let prefix = "Invalid Google client secret path: "@;
    let message = message_text(FitError::Config(ConfigError::InvalidClientSecretPath(path)));
    assert(message == prefix + path@);
    assert(message.subrange(message.len() - path@.len(), message.len() as int) =~= path@);
}

/// The line that announces a step count holds the count in decimal, right
/// after its opening words.
pub proof fn lemma_announced_count_is_shown(steps: i32)
    ensures
        ({
            let line = steps_text(steps);
            let lead = "You have taken "@;
            let count = decimal(steps as int);
            &&& line.len() >= lead.len() + count.len()
            &&& line.subrange(lead.len() as int, (lead.len() + count.len()) as int) == count
        }),
{
    let line = steps_text(steps);
    let lead = "You have taken "@;
    let count = decimal(steps as int);
    assert(line.subrange(lead.len() as int, (lead.len() + count.len()) as int) =~= count);
}

} // verus!
