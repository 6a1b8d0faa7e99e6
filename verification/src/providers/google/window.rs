//! The span of time that a daily query covers.

use vstd::prelude::*;
use crate::decimal::{decimal, to_decimal_string};

verus! {

/// A span of time in milliseconds since the epoch, with its width.
#[derive(Clone, Copy, Debug, PartialEq, Eq)]
pub struct TimeWindow {
    /// Local midnight of the day asked for.
    pub start_millis: i64,
    /// The instant of asking.
    pub end_millis: i64,
    /// The time between the two.
    pub duration_millis: i64,
}

/// The window from `start` to `end`, where there is one: `end` is not before
/// `start`, and the width fits in 64 bits.
pub open spec fn window_between(start: i64, end: i64) -> Option<TimeWindow> {
    if 0 <= end - start <= i64::MAX {
        Some(TimeWindow { start_millis: start, end_millis: end, duration_millis: (end - start) as i64 })
    } else {
        None
    }
}

/// The window made of two clock readings, local midnight and the present
/// instant, either of which may be missing: there is a window only where
/// both are there.
pub open spec fn window_of_readings(midnight: Option<i64>, now: Option<i64>) -> Option<
    TimeWindow,
> {
    match (midnight, now) {
        (Some(start), Some(end)) => window_between(start, end),
        _ => None,
    }
}

impl TimeWindow {
    /// The width is the distance from start to end, and is not negative.
    pub open spec fn wf(&self) -> bool {
        &&& self.duration_millis == self.end_millis - self.start_millis
        &&& self.duration_millis >= 0
    }

    /// The window from `start_millis` to `end_millis`; `None` where the end
    /// lies before the start or the width does not fit.
    pub fn new(start_millis: i64, end_millis: i64) -> (r: Option<TimeWindow>)
        ensures
            r == window_between(start_millis, end_millis),
            r matches Some(w) ==> w.wf(),
    {
        if end_millis < start_millis {
            return None;
        }
        match end_millis.checked_sub(start_millis) {
            Some(duration_millis) => Some(TimeWindow { start_millis, end_millis, duration_millis }),
            None => None,
        }
    }

    /// The three timestamps in decimal, as a query carries them:
    /// `(midnight, current, delta)`.
    pub fn timestamps(&self) -> (r: (String, String, String))
        ensures
            r.0@ == decimal(self.start_millis as int),
            r.1@ == decimal(self.end_millis as int),
            r.2@ == decimal(self.duration_millis as int),
    {
        (
            to_decimal_string(self.start_millis),
            to_decimal_string(self.end_millis),
            to_decimal_string(self.duration_millis),
        )
    }

    /// The window made of two clock readings: local midnight, which is missing
    /// where the day has no single midnight, and the present instant. A
    /// reading is also missing where the clock could not be read.
    pub fn from_readings(midnight: Option<i64>, now: Option<i64>) -> (r: Option<TimeWindow>)
        ensures
            r == window_of_readings(midnight, now),
            r matches Some(w) ==> w.wf(),
    {
        match (midnight, now) {
            (Some(start), Some(end)) => TimeWindow::new(start, end),
            _ => None,
        }
    }
}

} // verus!
