//! Sources of fitness data, and the ways in which asking one can fail.

pub mod google;

use vstd::prelude::*;
use vstd::string::*;
use crate::decimal::{decimal, to_decimal_string};

verus! {

/// A level of an aggregation answer that extraction expects to be present.
#[derive(Clone, Copy, Debug, PartialEq, Eq)]
pub enum Level {
    /// The answer's list of buckets.
    BucketList,
    /// A bucket's list of datasets.
    DatasetList,
    /// A dataset's list of points.
    PointList,
    /// A point's list of values.
    ValueList,
    /// A value's integer field.
    IntValue,
}

/// What is wrong with the configuration found at startup.
#[derive(Clone, Debug, PartialEq, Eq)]
pub enum ConfigError {
    /// No client-secret path was given and the environment holds none.
    MissingClientSecret,
    /// The client-secret path, held here, is empty or names nothing on disk.
    InvalidClientSecretPath(String),
}

/// Every failure is final: none is retried or recovered from.
#[derive(Clone, Debug, PartialEq, Eq)]
pub enum FitError {
    /// The configuration is missing or invalid; found before anything is sent.
    Config(ConfigError),
    /// The consent flow or the token exchange failed; holds the cause.
    Auth(String),
    /// The query could not be sent or answered; holds the cause.
    Transport(String),
    /// The answer lacks the level held here.
    MalformedResponse(Level),
    /// The answer is well formed, but the sum of its values is no 32-bit
    /// integer.
    StepCountOverflow,
}

/// A source of daily step counts.
pub trait Provider {
    /// Returns the total amount of steps that the user has taken between now and midnight.
    /// "midnight" is relative to the current time.
    fn daily_steps(&self) -> Result<i32, FitError>;
}

/// The text that names a missing level.
pub open spec fn level_text(level: Level) -> Seq<char> {
    match level {
        Level::BucketList => "AggregateResponse has no buckets"@,
        Level::DatasetList => "AggregateBucket has no datapoints"@,
        Level::PointList => "Invalid dataset"@,
        Level::ValueList => "Empty datapoint"@,
        Level::IntValue => "Invalid data value"@,
    }
}

/// The text that reports an error: a fixed phrase for its kind, followed by
/// the path or the cause where the error holds one.
pub open spec fn message_text(e: FitError) -> Seq<char> {
    match e {
        FitError::Config(ConfigError::MissingClientSecret) => "Missing env variable: `GOOGLE_CLIENT_SECRET`"@,
        FitError::Config(ConfigError::InvalidClientSecretPath(path)) => "Invalid Google client secret path: "@ + path@,
        FitError::Auth(cause) => "Failed to initialize GoogleFitProvider: "@ + cause@,
        FitError::Transport(cause) => "Failed to retrieve steps :( "@ + cause@,
        FitError::MalformedResponse(level) => "Malformed response: "@ + level_text(level),
        FitError::StepCountOverflow => "Step count out of range"@,
    }
}

/// The line that announces a step count: the count in decimal inside a
/// fixed sentence.
pub open spec fn steps_text(steps: i32) -> Seq<char> {
    "You have taken "@ + decimal(steps as int) + " steps today!"@
}

/// The line to print for a step count.
pub fn steps_message(steps: i32) -> (r: String)
    ensures
        r@ == steps_text(steps),
{
    let count = to_decimal_string(steps as i64);
    String::from_str("You have taken ").concat(count.as_str()).concat(" steps today!")
}

/// The exit code of a program that ends in this error: one code for each
/// kind of failure, none of them zero.
pub open spec fn exit_code_of(e: FitError) -> i32 {
    match e {
        FitError::Config(_) => 2,
        FitError::Auth(_) => 3,
        FitError::Transport(_) => 4,
        FitError::MalformedResponse(_) => 5,
        FitError::StepCountOverflow => 6,
    }
}

impl Level {
    /// The text that names this level when it is missing.
    pub fn describe(&self) -> (r: &'static str)
        ensures
            r@ == level_text(*self),
    {
        match self {
            Level::BucketList => "AggregateResponse has no buckets",
            Level::DatasetList => "AggregateBucket has no datapoints",
            Level::PointList => "Invalid dataset",
            Level::ValueList => "Empty datapoint",
            Level::IntValue => "Invalid data value",
        }
    }
}

impl FitError {
    /// The exit code that tells the stage of the failure.
    pub fn exit_code(&self) -> (r: i32)
        ensures
            r != 0,
            r == exit_code_of(*self),
    {
        match self {
            FitError::Config(_) => 2,
            FitError::Auth(_) => 3,
            FitError::Transport(_) => 4,
            FitError::MalformedResponse(_) => 5,
            FitError::StepCountOverflow => 6,
        }
    }

    /// The message to show for this error. For an invalid client-secret path
    /// it ends in that exact path.
    pub fn message(&self) -> (r: String)
        ensures
            r@ == message_text(*self),
    {
        match self {
            FitError::Config(ConfigError::MissingClientSecret) => String::from_str(
                "Missing env variable: `GOOGLE_CLIENT_SECRET`",
            ),
            FitError::Config(ConfigError::InvalidClientSecretPath(path)) => String::from_str(
                "Invalid Google client secret path: ",
            ).concat(path.as_str()),
            FitError::Auth(cause) => String::from_str(
                "Failed to initialize GoogleFitProvider: ",
            ).concat(cause.as_str()),
            FitError::Transport(cause) => String::from_str("Failed to retrieve steps :( ").concat(
                cause.as_str(),
            ),
            FitError::MalformedResponse(level) => String::from_str("Malformed response: ").concat(
                level.describe(),
            ),
            FitError::StepCountOverflow => String::from_str("Step count out of range"),
        }
    }
}

} // verus!
