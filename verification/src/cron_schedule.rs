//! A cron schedule together with the expression it was parsed from.

use cron::Schedule;
use vstd::prelude::*;

verus! {

#[verifier::external_type_specification]
#[verifier::external_body]
pub struct ExSchedule(cron::Schedule);

#[verifier::external_type_specification]
#[verifier::external_body]
pub struct ExCronError(cron::error::Error);

/// Whether the `cron` crate accepts `expression` as a schedule.
pub uninterp spec fn cron_accepts(expression: Seq<char>) -> bool;

/// A schedule parsed by the `cron` crate, kept with the expression it was parsed from. Only
/// `parse_cron` makes one, so the schedule is always the parse of that expression.
pub struct CronSchedule {
    expression: String,
    schedule: Schedule,
}

impl View for CronSchedule {
    /// The expression the schedule was parsed from.
    type V = Seq<char>;

    closed spec fn view(&self) -> Seq<char> {
        self.expression@
    }
}

impl CronSchedule {
    /// The expression the schedule was parsed from.
    pub fn expression(&self) -> (res: &str)
        ensures
            res@ == self@,
    {
        self.expression.as_str()
    }

    /// The parsed schedule, to ask for its upcoming times.
    pub fn schedule(&self) -> &Schedule {
        &self.schedule
    }
}

/// Parses a cron expression with `cron::Schedule::from_str`, and keeps the schedule with the
/// expression it came from.
/// Trusted: the parse succeeds exactly when `cron_accepts` holds of the expression, which is a
/// function of the expression alone, and what comes back is the parse of that expression. What
/// the parsed schedule holds beyond that is not stated.
#[verifier::external_body]
pub(crate) fn parse_cron(expression: String) -> (res: Result<CronSchedule, cron::error::Error>)
    ensures
        res is Ok <==> cron_accepts(expression@),
        res matches Ok(s) ==> s@ == expression@,
{
    match expression.parse::<Schedule>() {
        Ok(schedule) => Ok(CronSchedule { expression, schedule }),
        Err(e) => Err(e),
    }
}

} // verus!
