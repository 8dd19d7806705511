//! The wall clock and what is computed from it: rotation deadlines and
//! file ages. Every moment is a count of milliseconds since the Unix
//! epoch, in UTC.
use vstd::prelude::*;
use chrono::{DateTime, Utc};

verus! {

pub type FileAge = u32;

/// The name of a rolled file holds its moment in this form.
pub const FL_NM_FORMAT: &'static str = "%Y-%m-%d-%T";

/// A record starts with its moment in this form.
pub const TIMESTAMP_FORMAT: &'static str = "%Y-%m-%dT%T%.3f";

pub const MIN_AS_MILLI_SEC: i64 = 60 * 1000;

pub const HOUR_AS_MILLI_SEC: i64 = 60 * MIN_AS_MILLI_SEC;

pub const DAY_AS_MILLI_SEC: i64 = 24 * HOUR_AS_MILLI_SEC;

pub const WEEK_AS_MILLI_SEC: i64 = 7 * DAY_AS_MILLI_SEC;

pub const MONTH_AS_MILLI_SEC: i64 = 30 * DAY_AS_MILLI_SEC;

pub const YEAR_AS_MILLI_SEC: i64 = 365 * DAY_AS_MILLI_SEC;

/// The last millisecond of 31 December 262142, the latest moment that
/// the calendar reaches.
pub const MAX_TIMESTAMP_MILLIS: i64 = 8_210_266_876_799_999;

/// A moment between the epoch and the end of the calendar.
pub open spec fn valid_timestamp(millis: int) -> bool {
    0 <= millis <= MAX_TIMESTAMP_MILLIS
}

/// The text of the moment `millis` in UTC, written in the form `pattern`.
pub uninterp spec fn utc_text(millis: int, pattern: Seq<char>) -> Seq<char>;

/// The forms in which the library writes a moment.
pub open spec fn known_pattern(pattern: Seq<char>) -> bool {
    pattern == FL_NM_FORMAT@ || pattern == TIMESTAMP_FORMAT@
}

/// Reads the clock with `chrono::Utc::now` and counts the milliseconds
/// with `DateTime::timestamp_millis`.
///
/// `Utc::now` itself refuses a clock that stands before the epoch or
/// past the end of the calendar, so the count lies between the two. It
/// does so by a panic, which no argument of this function could avoid.
#[verifier::external_body]
pub(crate) fn now_millis() -> (now: i64)
    ensures
        valid_timestamp(now as int),
{
    Utc::now().timestamp_millis()
}

/// Writes the moment `millis` in the form `pattern`: the moment is made
/// with `chrono::DateTime::from_timestamp_millis` and written with
/// `DateTime::<Utc>::format`.
///
/// Only the library's two forms are admitted, since writing an ill-formed
/// pattern panics. `from_timestamp_millis` gives a moment for every count
/// that the calendar reaches, so none is missing between the epoch and
/// its end. The text itself is not described, only named.
#[verifier::external_body]
fn format_utc(millis: i64, pattern: &str) -> (text: Option<String>)
    requires
        known_pattern(pattern@),
    ensures
        valid_timestamp(millis as int) ==> text is Some,
        text matches Some(t) ==> t@ == utc_text(millis as int, pattern@),
{
    match DateTime::<Utc>::from_timestamp_millis(millis) {
        Some(moment) => Some(moment.format(pattern).to_string()),
        None => None,
    }
}

/// The moment `millis` as it appears in the name of a rolled file, where
/// the calendar reaches it.
pub(crate) fn file_stamp(millis: i64) -> (text: Option<String>)
    ensures
        valid_timestamp(millis as int) ==> text is Some,
        text matches Some(t) ==> t@ == utc_text(millis as int, FL_NM_FORMAT@),
{
    format_utc(millis, FL_NM_FORMAT)
}

/// The moment `millis` as it appears at the start of a record, where the
/// calendar reaches it.
pub(crate) fn record_stamp(millis: i64) -> (text: Option<String>)
    ensures
        valid_timestamp(millis as int) ==> text is Some,
        text matches Some(t) ==> t@ == utc_text(millis as int, TIMESTAMP_FORMAT@),
{
    format_utc(millis, TIMESTAMP_FORMAT)
}

/// Whether the deadline `next_rotation_time` has passed at `now`. A
/// deadline of 0 or less never passes.
pub open spec fn spec_has_crossed(next_rotation_time: int, now: int) -> bool {
    next_rotation_time > 0 && next_rotation_time <= now
}

/// Whether the deadline `next_rotation_time` has passed at `now`.
pub fn has_crossed_rotation_time_at(next_rotation_time: i64, now: i64) -> (crossed: bool)
    ensures
        crossed == spec_has_crossed(next_rotation_time as int, now as int),
{
    next_rotation_time > 0 && next_rotation_time <= now
}

/// Whether the deadline `next_rotation_time` has passed by now.
pub fn has_crossed_rotation_time(next_rotation_time: i64) -> (crossed: bool)
    ensures
        exists|now: int|
            valid_timestamp(now) && crossed == #[trigger] spec_has_crossed(
                next_rotation_time as int,
                now,
            ),
{
    let now = now_millis();
    let crossed = has_crossed_rotation_time_at(next_rotation_time, now);
    assert(crossed == spec_has_crossed(next_rotation_time as int, now as int));
    crossed
}

/// A number of days in seconds.
pub open spec fn spec_max_age(age: FileAge) -> int {
    age * 24 * 3600
}

/// The age in seconds beyond which a file of `age` days is too old.
pub fn max_age(age: FileAge) -> (seconds: u64)
    ensures
        seconds == spec_max_age(age),
{
    age as u64 * 24 * 3600
}

/// Whole seconds from `time` to `now`, and 0 where `time` lies after
/// `now`.
pub open spec fn spec_duration_between(now: int, time: int) -> int {
    if time <= now {
        (now - time) / 1000
    } else {
        0
    }
}

/// Whole seconds that have passed at `now` since `time`.
pub fn duration_between(now: i64, time: i64) -> (seconds: u64)
    ensures
        seconds == spec_duration_between(now as int, time as int),
{
    if time <= now {
        let elapsed: i128 = now as i128 - time as i128;
        (elapsed / 1000) as u64
    } else {
        0
    }
}

/// Whole seconds that have passed since `time`.
pub fn duration_since(time: i64) -> (seconds: u64)
    ensures
        exists|now: int|
            valid_timestamp(now) && seconds == #[trigger] spec_duration_between(now, time as int),
{
    let now = now_millis();
    let seconds = duration_between(now, time);
    assert(seconds == spec_duration_between(now as int, time as int));
    seconds
}

/// The age of a directory entry made at `created`: 0 for what is no
/// regular file, else the seconds from `created` to `now`.
pub open spec fn spec_file_age(is_file: bool, created: int, now: int) -> int {
    if is_file {
        spec_duration_between(now, created)
    } else {
        0
    }
}

/// The age at `now` of a directory entry made at `created`.
pub fn get_file_age_at(is_file: bool, created: i64, now: i64) -> (seconds: u64)
    ensures
        seconds == spec_file_age(is_file, created as int, now as int),
{
    if !is_file {
        return 0;
    }
    duration_between(now, created)
}

/// The present age of a directory entry made at `created`.
pub fn get_file_age(is_file: bool, created: i64) -> (seconds: u64)
    ensures
        exists|now: int|
            valid_timestamp(now) && seconds == #[trigger] spec_file_age(
                is_file,
                created as int,
                now,
            ),
{
    let now = now_millis();
    let seconds = get_file_age_at(is_file, created, now);
    assert(seconds == spec_file_age(is_file, created as int, now as int));
    seconds
}

} // verus!
