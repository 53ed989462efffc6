//! Points in time and the spans between them, in nanoseconds.

use vstd::prelude::*;

use crate::error::Error;
use crate::Timestamp;

verus! {

/// The time helpers, gathered under one name.
pub struct Time;

impl Time {
    /// The whole cycle of a batch: five minutes.
    pub const BLOCK_DURATION: u64 = 300_000_000_000;

    /// Two minutes.
    pub const PRIORITY_DURATION: u64 = 120_000_000_000;

    /// Three minutes.
    pub const PUBLIC_DURATION: u64 = 180_000_000_000;

    /// 24 hours.
    pub const ONE_DAY: u64 = 86_400_000_000_000;

    /// Why a range is not acceptable at `now`, if it is not: it must start
    /// before it ends, and end after `now`.
    pub open spec fn time_range_error(start: Timestamp, end: Timestamp, now: Timestamp) -> Option<
        Error,
    > {
        if start >= end {
            Some(Error::InvalidTimeRange)
        } else if end <= now {
            Some(Error::EndTimeNotInFuture)
        } else {
            None
        }
    }

    /// The number of whole days between two points in time, whichever comes
    /// first.
    pub open spec fn days_between(time1: Timestamp, time2: Timestamp) -> int {
        if time2 > time1 {
            (time2 - time1) / 86_400_000_000_000
        } else {
            (time1 - time2) / 86_400_000_000_000
        }
    }

    /// Accepts a range that starts before it ends and ends after `now`.
    pub fn assert_valid_time_range(start: Timestamp, end: Timestamp, now: Timestamp) -> (result:
        Result<bool, Error>)
        ensures
            result == match Self::time_range_error(start, end, now) {
                Some(e) => Err::<bool, Error>(e),
                None => Ok::<bool, Error>(true),
            },
    {
        if start >= end {
            return Err(Error::InvalidTimeRange);
        }
        if end <= now {
            return Err(Error::EndTimeNotInFuture);
        }
        Ok(true)
    }

    /// Whether `current` lies between `start` and `end`, both included.
    pub fn is_within_range(current: Timestamp, start: Timestamp, end: Timestamp) -> (within: bool)
        ensures
            within == (start <= current <= end),
    {
        current >= start && current <= end
    }

    /// The end of a batch that starts at `start_time`.
    pub fn get_block_end_time(start_time: Timestamp) -> (end: Timestamp)
        requires
            start_time + 300_000_000_000 <= u64::MAX,
        ensures
            end == start_time + 300_000_000_000,
    {
        start_time + Self::BLOCK_DURATION
    }

    /// The end of the priority period that follows a batch.
    pub fn get_priority_end_time(block_end: Timestamp) -> (end: Timestamp)
        requires
            block_end + 120_000_000_000 <= u64::MAX,
        ensures
            end == block_end + 120_000_000_000,
    {
        block_end + Self::PRIORITY_DURATION
    }

    /// The end of the public period that follows a batch.
    pub fn get_public_end_time(block_end: Timestamp) -> (end: Timestamp)
        requires
            block_end + 180_000_000_000 <= u64::MAX,
        ensures
            end == block_end + 180_000_000_000,
    {
        block_end + Self::PUBLIC_DURATION
    }

    /// Whether two points in time fall on the same day.
    pub fn is_same_day(time1: Timestamp, time2: Timestamp) -> (same: bool)
        ensures
            same == (time1 / 86_400_000_000_000 == time2 / 86_400_000_000_000),
    {
        time1 / Self::ONE_DAY == time2 / Self::ONE_DAY
    }

    /// The number of whole days between two points in time.
    pub fn get_days_between(time1: Timestamp, time2: Timestamp) -> (days: u64)
        ensures
            days == Self::days_between(time1, time2),
    {
        let diff = if time2 > time1 {
            time2 - time1
        } else {
            time1 - time2
        };
        diff / Self::ONE_DAY
    }
}

} // verus!
