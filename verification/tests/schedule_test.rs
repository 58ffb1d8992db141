use awsbck::schedule::{time_until_next, ScheduleError};

#[test]
fn waits_until_deadline() {
    assert_eq!(time_until_next(Some(1_000_000), 400_000), Ok(600_000));
    assert_eq!(time_until_next(Some(5), 5), Ok(0));
    assert_eq!(time_until_next(Some(i64::MAX), i64::MIN), Ok(u64::MAX));
}

#[test]
fn stops_without_deadline() {
    assert_eq!(time_until_next(None, 0), Err(ScheduleError::NoUpcomingTime));
    assert_eq!(
        ScheduleError::NoUpcomingTime.message(),
        "Could not get next execution time for cron schedule"
    );
}

#[test]
fn stops_on_past_deadline() {
    assert_eq!(time_until_next(Some(4), 5), Err(ScheduleError::DeadlinePassed));
    assert_eq!(
        ScheduleError::DeadlinePassed.message(),
        "Could not convert duration to std Duration"
    );
}
