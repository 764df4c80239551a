//! Points in time.
use chrono::{DateTime, Utc};
use vstd::prelude::*;

verus! {

/// The last second that the calendar holds, counted from the start of 1970.
pub const LAST_SECOND: i64 = 8_210_266_876_799;

/// A point in time: whole seconds from the start of 1970, and nanoseconds beyond.
#[derive(Clone, Copy, Debug, PartialEq, Eq, Structural)]
pub struct Timestamp {
    pub secs: i64,
    pub nanos: u32,
}

impl Timestamp {
    /// Whether the calendar holds this point: from 1970 on, and outside leap seconds.
    pub open spec fn wf(self) -> bool {
        0 <= self.secs <= LAST_SECOND && self.nanos < 1_000_000_000
    }

    /// All the nanoseconds from the start of 1970.
    pub open spec fn total_nanos(self) -> int {
        self.secs * 1_000_000_000 + self.nanos
    }

    /// The point in time that the clock shows.
    pub fn now() -> (r: Timestamp)
        ensures
            r.wf(),
    {
        utc_now()
    }
}

/// The whole seconds from one point to another, counted towards zero.
pub open spec fn seconds_from(then: Timestamp, now: Timestamp) -> int {
    let nanos = now.total_nanos() - then.total_nanos();
    if nanos >= 0 {
        nanos / 1_000_000_000
    } else {
        -((-nanos) / 1_000_000_000)
    }
}

/// Calls `chrono::Utc::now`, and `timestamp` and `timestamp_subsec_nanos` on its result. Claims that
/// the clock gives a point that the calendar holds. Which one, it leaves open. With a clock that
/// stands before 1970 it does not return.
#[verifier::external_body]
fn utc_now() -> (r: Timestamp)
    ensures
        r.wf(),
{
    let now = Utc::now();
    Timestamp { secs: now.timestamp(), nanos: now.timestamp_subsec_nanos() }
}

/// Calls `signed_duration_since` of `chrono::DateTime`, and `num_seconds` on its result. Claims that
/// it counts the whole seconds between the two points, towards zero.
#[verifier::external_body]
pub(crate) fn seconds_since(now: Timestamp, then: Timestamp) -> (r: i64)
    requires
        now.wf(),
        then.wf(),
    ensures
        r == seconds_from(then, now),
{
    let now = DateTime::<Utc>::from_timestamp(now.secs, now.nanos).unwrap();
    let then = DateTime::<Utc>::from_timestamp(then.secs, then.nanos).unwrap();
    now.signed_duration_since(then).num_seconds()
}

/// What `to_rfc3339` of `chrono::DateTime` writes for a point in time.
pub uninterp spec fn rfc3339(secs: i64, nanos: u32) -> Seq<char>;

/// Calls `to_rfc3339` of `chrono::DateTime`. Claims that the text is the one which [`rfc3339`] names.
#[verifier::external_body]
pub(crate) fn to_rfc3339(time: Timestamp) -> (r: String)
    requires
        time.wf(),
    ensures
        r@ == rfc3339(time.secs, time.nanos),
{
    DateTime::<Utc>::from_timestamp(time.secs, time.nanos).unwrap().to_rfc3339()
}

// ── Laws ───────────────────────────────────────────────────────────────────

/// The seconds from one point to a later one are all the whole seconds between them, and from there
/// back as many, with the other sign.
pub proof fn law_seconds_are_whole(then: Timestamp, now: Timestamp)
    ensures
        ({
            let nanos = (now.secs * 1_000_000_000 + now.nanos) - (then.secs * 1_000_000_000
                + then.nanos);
            let secs = seconds_from(then, now);
            nanos >= 0 ==> secs * 1_000_000_000 <= nanos < (secs + 1) * 1_000_000_000
        }),
        seconds_from(now, then) == -seconds_from(then, now),
{
}

/// The calendar holds the points from the start of 1970 to the end of the year 262142, by the
/// nanosecond.
pub proof fn law_calendar_holds(time: Timestamp)
    ensures
        time.wf() <==> 0 <= time.secs && time.secs <= 8_210_266_876_799 && time.nanos
            <= 999_999_999,
{
}

} // verus!
