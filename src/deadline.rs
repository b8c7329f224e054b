//! The deadline evaluator: the next instant, in milliseconds since the
//! epoch, at which a cron schedule fires.
use vstd::prelude::*;

use crate::decimal::{decimal_u64, parse_u64};
use crate::{text_bytes, CronError};

verus! {

#[verifier::external_type_specification]
#[verifier::external_body]
pub struct ExCron(saffron::Cron);

/// The earliest instant that a `DateTime<Utc>` can hold, in milliseconds:
/// January 1 of year -262143, at midnight.
pub const MIN_UTC_MILLIS: i64 = -8334601228800000;

/// The latest instant that a `DateTime<Utc>` can hold, in milliseconds:
/// the last millisecond of December 31 of year 262142.
pub const MAX_UTC_MILLIS: i64 = 8210266876799999;

/// Whether `ms` is an instant that a `DateTime<Utc>` can hold; all of them lie
/// below 2^53 in magnitude, so a double holds each exactly.
pub open spec fn in_utc_range(ms: int) -> bool {
    MIN_UTC_MILLIS <= ms <= MAX_UTC_MILLIS
}

/// Whether saffron's cron grammar accepts `text`.
pub uninterp spec fn cron_is_valid(text: Seq<char>) -> bool;

/// The first instant after `now_ms` at which the schedule `text` fires, if any.
pub uninterp spec fn cron_next_after(text: Seq<char>, now_ms: int) -> Option<int>;

/// A parsed cron schedule, together with the text it was parsed from.
pub struct Schedule {
    cron: saffron::Cron,
    text: Ghost<Seq<char>>,
}

impl View for Schedule {
    type V = Seq<char>;

    closed spec fn view(&self) -> Seq<char> {
        self.text@
    }
}

/// Relies on saffron's `FromStr for Cron`: whether it accepts the text.
#[verifier::external_body]
fn parse_cron(text: &str) -> (r: Option<saffron::Cron>)
    ensures
        r is Some <==> cron_is_valid(text@),
{
    text.parse::<saffron::Cron>().ok()
}

/// Relies on saffron's `Cron::next_after`, reached through chrono's
/// `DateTime::from_timestamp_millis` and `DateTime::timestamp_millis`: the
/// first whole minute after `now_ms` that the schedule matches. saffron starts
/// its search at the minute after the one holding `now_ms`, so a found instant
/// lies after it, and a `DateTime<Utc>` always lies in chrono's range.
#[verifier::external_body]
fn saffron_next_after(schedule: &Schedule, now_ms: i64) -> (r: Option<i64>)
    requires
        in_utc_range(now_ms as int),
    ensures
        match r {
            Some(d) => cron_next_after(schedule@, now_ms as int) == Some(d as int),
            None => cron_next_after(schedule@, now_ms as int) is None,
        },
        r matches Some(d) ==> d > now_ms && in_utc_range(d as int),
{
    let now = chrono::DateTime::from_timestamp_millis(now_ms).unwrap();
    schedule.cron.next_after(now).map(|d| d.timestamp_millis())
}

/// Relies on chrono's `Utc::now` and `DateTime::timestamp_millis`: the current
/// time in milliseconds. `Utc::now` panics on a clock set before the epoch, so
/// a returned value is never negative.
#[verifier::external_body]
fn utc_now_millis() -> (r: i64)
    ensures
        0 <= r <= MAX_UTC_MILLIS,
{
    chrono::Utc::now().timestamp_millis()
}

impl Schedule {
    /// Parses a cron expression.
    pub fn parse(text: &str) -> (r: Result<Schedule, CronError>)
        ensures
            r is Ok <==> cron_is_valid(text@),
            r matches Ok(s) ==> s@ == text@,
            r matches Err(e) ==> e == CronError::InvalidCron,
    {
        match parse_cron(text) {
            Some(cron) => Ok(Schedule { cron, text: Ghost(text@) }),
            None => Err(CronError::InvalidCron),
        }
    }
}

/// The test offset that an override text stands for: a `u64` of milliseconds.
pub open spec fn test_offset_of(text: Option<Seq<u8>>) -> Option<u64> {
    match text {
        Some(t) => decimal_u64(t),
        None => None,
    }
}

/// The deadline for `schedule` at reference instant `now_ms`; `None` stands
/// for a schedule that is invalid or has no later occurrence. A test offset
/// takes precedence over the schedule once the schedule is valid.
pub open spec fn deadline_at(schedule: Seq<char>, now_ms: int, test_offset: Option<u64>) -> Option<
    int,
> {
    if !cron_is_valid(schedule) {
        None
    } else {
        match test_offset {
            Some(k) => Some(now_ms + k),
            None => cron_next_after(schedule, now_ms),
        }
    }
}

/// `r` is the outcome that `d` describes: the deadline, or `InvalidCron`.
pub open spec fn is_outcome(r: Result<i128, CronError>, d: Option<int>) -> bool {
    match d {
        Some(v) => r == Ok::<i128, CronError>(v as i128),
        None => r == Err::<i128, CronError>(CronError::InvalidCron),
    }
}

/// Reads the test-offset override: a count of milliseconds written as
/// `u64::from_str` accepts it; anything else means no override.
pub fn parse_test_offset(text: Option<&str>) -> (r: Option<u64>)
    ensures
        r == test_offset_of(text_bytes(text)),
{
    match text {
        Some(t) => parse_u64(t),
        None => None,
    }
}

/// The next deadline of a parsed schedule seen from the instant `now_ms`.
fn deadline_of(schedule: &Schedule, now_ms: i64, test_offset_ms: Option<u64>) -> (r: Result<
    i128,
    CronError,
>)
    requires
        in_utc_range(now_ms as int),
        cron_is_valid(schedule@),
    ensures
        is_outcome(r, deadline_at(schedule@, now_ms as int, test_offset_ms)),
        test_offset_ms is None && r is Ok ==> r->Ok_0 > now_ms && in_utc_range(r->Ok_0 as int),
{
    if let Some(k) = test_offset_ms {
        return Ok(now_ms as i128 + k as i128);
    }
    match saffron_next_after(schedule, now_ms) {
        Some(d) => Ok(d as i128),
        None => Err(CronError::InvalidCron),
    }
}

/// The next deadline of `schedule` seen from the instant `now_ms`.
pub fn next_deadline_at(schedule: &str, now_ms: i64, test_offset_ms: Option<u64>) -> (r: Result<
    i128,
    CronError,
>)
    requires
        in_utc_range(now_ms as int),
    ensures
        is_outcome(r, deadline_at(schedule@, now_ms as int, test_offset_ms)),
        !cron_is_valid(schedule@) ==> r == Err::<i128, CronError>(CronError::InvalidCron),
        cron_is_valid(schedule@) && test_offset_ms is Some ==> r == Ok::<i128, CronError>(
            (now_ms + test_offset_ms->0) as i128,
        ),
        test_offset_ms is None && r is Ok ==> r->Ok_0 > now_ms && in_utc_range(r->Ok_0 as int),
{
    match Schedule::parse(schedule) {
        Ok(s) => deadline_of(&s, now_ms, test_offset_ms),
        Err(e) => Err(e),
    }
}

/// The next deadline of `schedule` seen from the current time, unless the
/// test-offset override `test_offset` reads as a number of milliseconds.
pub fn compute_next_deadline(schedule: &str, test_offset: Option<&str>) -> (r: Result<
    i128,
    CronError,
>)
    ensures
        exists|now_ms: int|
            0 <= now_ms <= MAX_UTC_MILLIS && #[trigger] is_outcome(
                r,
                deadline_at(
                    schedule@,
                    now_ms,
                    test_offset_of(text_bytes(test_offset)),
                ),
            ) && (test_offset_of(text_bytes(test_offset)) is None && r is Ok ==> r->Ok_0
                > now_ms),
        !cron_is_valid(schedule@) ==> r == Err::<i128, CronError>(CronError::InvalidCron),
{
    let schedule = match Schedule::parse(schedule) {
        Ok(s) => s,
        Err(e) => {
            let r = Err(e);
            assert(is_outcome(r, deadline_at(schedule@, 0, test_offset_of(text_bytes(test_offset)))));
            return r;
        },
    };
    let now_ms = utc_now_millis();
    let offset = parse_test_offset(test_offset);
    let r = deadline_of(&schedule, now_ms, offset);
    assert(is_outcome(r, deadline_at(schedule@, now_ms as int, offset)));
    r
}

/// Evaluations repeat: the same schedule, instant and offset give the same
/// deadline, and under a test offset a later instant never gives an earlier
/// deadline.
pub proof fn lemma_deadline_repeatable(
    schedule: Seq<char>,
    now1: int,
    now2: int,
    test_offset: Option<u64>,
)
    requires
        now1 <= now2,
    ensures
        now1 == now2 ==> deadline_at(schedule, now1, test_offset) == deadline_at(
            schedule,
            now2,
            test_offset,
        ),
        cron_is_valid(schedule) && test_offset is Some ==> deadline_at(
            schedule,
            now1,
            test_offset,
        )->0 <= deadline_at(schedule, now2, test_offset)->0,
{
}

/// A valid schedule under a test offset of `k` milliseconds is due exactly
/// `k` milliseconds after the reference instant; without an offset it is due
/// when the schedule next fires.
pub proof fn lemma_test_offset_precedence(schedule: Seq<char>, now_ms: int, k: u64)
    requires
        cron_is_valid(schedule),
    ensures
        deadline_at(schedule, now_ms, Some(k)) == Some(now_ms + k),
        deadline_at(schedule, now_ms, None) == cron_next_after(schedule, now_ms),
{
}

} // verus!
