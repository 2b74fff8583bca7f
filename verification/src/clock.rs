//! Points in time, and the two things that the service asks the machine for: the time and chance.

use vstd::prelude::*;

verus! {

/// Nanoseconds in a second.
pub const NANOS_PER_SECOND: u32 = 1_000_000_000;

/// The day number of 1 January 1970, where day 1 is 1 January of the year 1.
pub const EPOCH_DAY: i32 = 719_163;

/// The last second that the calendar of `chrono` can hold.
pub const LAST_SECOND: i64 = 8_210_266_876_799;

/// A point in time: seconds since the start of 1970 in UTC, and nanoseconds into that second.
#[derive(Clone, Copy, Debug, PartialEq, Eq, Structural)]
pub struct Timestamp {
    pub seconds: i64,
    pub nanos: u32,
}

impl Timestamp {
    /// The nanoseconds count into one second.
    pub open spec fn wf(self) -> bool {
        self.nanos < NANOS_PER_SECOND
    }

    /// Nanoseconds since the start of 1970.
    pub open spec fn at(self) -> int {
        self.seconds * 1_000_000_000 + self.nanos
    }

    /// Whether this point lies before the other one.
    pub open spec fn is_before(self, other: Timestamp) -> bool {
        self.seconds < other.seconds || (self.seconds == other.seconds && self.nanos < other.nanos)
    }

    /// Whether this point lies before the other one.
    pub fn before(self, other: Timestamp) -> (r: bool)
        ensures
            r == self.is_before(other),
    {
        self.seconds < other.seconds || (self.seconds == other.seconds && self.nanos < other.nanos)
    }

    /// The point that lies `seconds` later.
    pub open spec fn later(self, seconds: int) -> Timestamp {
        Timestamp { seconds: (self.seconds + seconds) as i64, nanos: self.nanos }
    }

    /// The point that lies `seconds` later.
    pub fn plus_seconds(self, seconds: u32) -> (r: Timestamp)
        requires
            self.seconds + seconds <= i64::MAX,
        ensures
            r == self.later(seconds as int),
            r.at() == self.at() + seconds * 1_000_000_000,
    {
        Timestamp { seconds: self.seconds + seconds as i64, nanos: self.nanos }
    }

    /// The full hours that lie between an earlier point and this one.
    pub fn hours_since(self, earlier: Timestamp) -> (r: i64)
        requires
            self.wf(),
            earlier.wf(),
            !self.is_before(earlier),
        ensures
            r == (self.at() - earlier.at()) / 3_600_000_000_000,
    {
        let mut seconds: i128 = self.seconds as i128 - earlier.seconds as i128;
        if self.nanos < earlier.nanos {
            seconds -= 1;
        }
        (seconds / 3600) as i64
    }
}

/// Calls `chrono::offset::Local::now`. The answer depends on the clock of the machine; it counts
/// from 1970 on and stays in the calendar. That the clock stands there is left unsaid: where it
/// does not, `Local::now` panics.
#[verifier::external_body]
pub(crate) fn now() -> (r: Timestamp)
    ensures
        r.wf(),
        0 <= r.seconds <= LAST_SECOND,
{
    let now = chrono::offset::Local::now();
    Timestamp { seconds: now.timestamp(), nanos: now.timestamp_subsec_nanos() }
}

/// Whether the clock can give this day as today, in some time zone: the clock starts in 1970 and
/// ends with the calendar, and a time zone shifts the day by one at most.
pub open spec fn may_be_today(day: int) -> bool {
    EPOCH_DAY - 1 <= day && (day - EPOCH_DAY) * 86_400 <= LAST_SECOND + 86_400
}

/// Whether the day can start at this point, in some time zone: a time zone lies less than one day
/// from UTC, by full seconds.
pub open spec fn may_start_at(day: int, start: Timestamp) -> bool {
    &&& start.nanos == 0
    &&& (day - EPOCH_DAY - 1) * 86_400 < start.seconds < (day - EPOCH_DAY + 1) * 86_400
}

/// Calls `chrono::offset::Local::today`: today's day in the time zone of the machine, counted so
/// that day 1 is 1 January of the year 1. The clock starts in 1970, and a time zone shifts the
/// day by one at most.
#[allow(deprecated)]
#[verifier::external_body]
pub(crate) fn today() -> (r: i32)
    ensures
        may_be_today(r as int),
{
    chrono::Datelike::num_days_from_ce(&chrono::offset::Local::today())
}

/// Calls `chrono::TimeZone::from_local_datetime` of `chrono::offset::Local` for the start of a
/// day. Nothing comes back where the day is not in the calendar, or where its start exists not at
/// all or twice in the time zone of the machine. A time zone lies less than one day from UTC, by
/// full seconds.
#[verifier::external_body]
pub(crate) fn local_midnight(day: i32) -> (r: Option<Timestamp>)
    ensures
        r matches Some(start) ==> may_start_at(day as int, start),
{
    let day = chrono::NaiveDate::from_num_days_from_ce_opt(day)?.and_time(chrono::NaiveTime::MIN);
    let start = chrono::TimeZone::from_local_datetime(&chrono::offset::Local, &day).single()?;
    Some(Timestamp { seconds: start.timestamp(), nanos: start.timestamp_subsec_nanos() })
}

/// Calls `rand::Rng::gen_range` of `rand::thread_rng` for the numbers up to `max`.
#[verifier::external_body]
pub(crate) fn random_up_to(max: u32) -> (r: u32)
    ensures
        r <= max,
{
    rand::Rng::gen_range(&mut rand::thread_rng(), 0..=max)
}

} // verus!
