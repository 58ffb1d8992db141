//! Decisions of the periodic backup loop.

use vstd::prelude::*;

verus! {

/// Why the periodic backup loop stops.
#[derive(Debug, Clone, Copy, PartialEq, Eq, Structural)]
pub enum ScheduleError {
    /// The cron schedule has no upcoming execution time.
    NoUpcomingTime,
    /// The next execution time is already past, so no wait can be computed.
    DeadlinePassed,
}

impl ScheduleError {
    /// The message logged when the loop stops for this reason.
    pub fn message(&self) -> (res: String)
        ensures
            res@ == (match *self {
                ScheduleError::NoUpcomingTime => "Could not get next execution time for cron schedule"@,
                ScheduleError::DeadlinePassed => "Could not convert duration to std Duration"@,
            }),
    {
        match self {
            ScheduleError::NoUpcomingTime => String::from_str(
                "Could not get next execution time for cron schedule",
            ),
            ScheduleError::DeadlinePassed => String::from_str(
                "Could not convert duration to std Duration",
            ),
        }
    }
}

/// How long to sleep, in microseconds, before the next backup: from `now` until `deadline`,
/// the next execution time of the schedule (both in microseconds since the Unix epoch).
pub fn time_until_next(deadline: Option<i64>, now: i64) -> (res: Result<u64, ScheduleError>)
    ensures
        deadline is None ==> res == Err::<u64, ScheduleError>(ScheduleError::NoUpcomingTime),
        deadline matches Some(d) ==> (d < now ==> res == Err::<u64, ScheduleError>(
            ScheduleError::DeadlinePassed,
        )),
        deadline matches Some(d) ==> (d >= now ==> res == Ok::<u64, ScheduleError>(
            (d - now) as u64,
        )),
{
    match deadline {
        None => Err(ScheduleError::NoUpcomingTime),
        Some(d) => {
            if d < now {
                Err(ScheduleError::DeadlinePassed)
            } else {
                let wait: u64 = (d as i128 - now as i128) as u64;
                Ok(wait)
            }
        },
    }
}

} // verus!
