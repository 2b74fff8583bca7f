//! What holds of points in time.

use vstd::prelude::*;
use crate::clock;
use crate::clock::Timestamp;

verus! {

/// Of two points in time just one lies before the other, unless they are the same; a point that lies
/// a number of seconds later lies just so far behind; and time is counted in nanoseconds.
pub proof fn law_time_is_counted(a: Timestamp, b: Timestamp, seconds: int)
    requires
        a.nanos < 1_000_000_000,
        b.nanos < 1_000_000_000,
        0 <= seconds,
        a.seconds + seconds <= i64::MAX,
    ensures
        a.wf(),
        a.is_before(b) || b.is_before(a) <==> a != b,
        !(a.is_before(b) && b.is_before(a)),
        a.is_before(b) <==> (a.seconds - b.seconds) * 1_000_000_000 + a.nanos - b.nanos < 0,
        b.at() - a.at() == (b.seconds - a.seconds) * 1_000_000_000 + b.nanos - a.nanos,
        a.later(seconds).seconds == a.seconds + seconds,
        a.later(seconds).nanos == a.nanos,
        seconds > 0 ==> a.is_before(a.later(seconds)),
{
}

/// A day that is today lies between 31 December 1969 and the day behind the last one of the calendar,
/// and a day starts less than a day before or behind its start in UTC, at a full second.
pub proof fn law_days_are_those_of_the_calendar(day: int, start: Timestamp)
    ensures
        clock::may_be_today(day) <==> 719_162 <= day && (day - 719_164) * 86_400
            <= 8_210_266_876_799,
        clock::may_start_at(day, start) <==> {
            let utc = (day - 719_163) * 86_400;
            start.nanos == 0 && utc - 86_400 < start.seconds < utc + 86_400
        },
{
}

} // verus!
