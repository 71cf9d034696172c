use vstd::prelude::*;
use chrono::Datelike;

verus! {

/// The first day that a calendar date can be: January 1 of year -262143,
/// counted as in the proleptic Gregorian calendar with January 1 of year 1 as day 1.
pub const FIRST_DAY: i32 = -95_746_129i32;

/// The last day that a calendar date can be: December 31 of year 262142.
pub const LAST_DAY: i32 = 95_745_399i32;

/// Days counted from Monday: Saturday is the sixth day of the week.
pub const SATURDAY: u32 = 5u32;

/// The day of the week of day number `days`, counted from Monday (0) to Sunday (6).
/// Day 1, January 1 of year 1, was a Monday.
pub open spec fn weekday(days: int) -> int {
    (days - 1) % 7
}

/// Whether day number `days` falls on a Saturday.
pub open spec fn is_saturday_day(days: int) -> bool {
    weekday(days) == SATURDAY as int
}

/// Saturdays are exactly the days a whole number of weeks away from day 6,
/// January 6 of year 1 (day 1, January 1 of year 1, being a Monday), before or after it.
pub proof fn saturdays_are_whole_weeks_from_day_six(days: int)
    ensures
        is_saturday_day(days) == ((days - 6) % 7 == 0),
{
}

/// Saturdays come back every seven days, and no other day between two of them is one.
pub proof fn saturdays_come_weekly(days: int, k: int)
    requires
        is_saturday_day(days),
    ensures
        is_saturday_day(days + 7 * k),
        forall|j: int| 1 <= j <= 6 ==> !is_saturday_day(#[trigger] (days + j)),
{
    saturdays_are_whole_weeks_from_day_six(days);
    saturdays_are_whole_weeks_from_day_six(days + 7 * k);
    assert((days + 7 * k - 6) % 7 == (days - 6) % 7) by (nonlinear_arith);
    assert forall|j: int| 1 <= j <= 6 implies !is_saturday_day(#[trigger] (days + j)) by {
        saturdays_are_whole_weeks_from_day_six(days + j);
    }
}

/// A calendar date, held as its day number (January 1 of year 1 is day 1).
#[derive(Clone, Copy, Debug, PartialEq, Eq)]
pub struct Date {
    days: i32,
}

impl Date {
    #[verifier::type_invariant]
    spec fn in_range(self) -> bool {
        FIRST_DAY <= self.days <= LAST_DAY
    }

    /// The day number of this date.
    pub closed spec fn num_days(self) -> int {
        self.days as int
    }

    /// The date with day number `days`, if the calendar reaches it.
    pub fn from_days_from_ce(days: i32) -> (r: Option<Date>)
        ensures
            r is Some <==> FIRST_DAY <= days <= LAST_DAY,
            r matches Some(d) ==> d.num_days() == days,
    {
        if FIRST_DAY <= days && days <= LAST_DAY {
            Some(Date { days })
        } else {
            None
        }
    }

    /// The day number of this date.
    pub fn days_from_ce(&self) -> (n: i32)
        ensures
            n == self.num_days(),
            FIRST_DAY <= n <= LAST_DAY,
    {
        proof {
            use_type_invariant(self);
        }
        self.days
    }

    /// Whether this date falls on a Saturday.
    pub fn is_saturday(&self) -> (b: bool)
        ensures
            b == is_saturday_day(self.num_days()),
            b == ((self.num_days() - 6) % 7 == 0),
    {
        proof {
            saturdays_are_whole_weeks_from_day_six(self.num_days());
        }
        let n: i32 = self.days_from_ce();
        weekday_from_monday(n) == SATURDAY
    }
}

/// Calls chrono's `NaiveDate::from_num_days_from_ce_opt` and `Datelike::weekday`,
/// then `Weekday::num_days_from_monday`. The contract claims that chrono counts
/// days in the proleptic Gregorian calendar with January 1 of year 1, a Monday,
/// as day 1, so that the week day repeats every seven days from there; and that
/// every day number from `FIRST_DAY` to `LAST_DAY` is a date chrono accepts.
#[verifier::external_body]
fn weekday_from_monday(days: i32) -> (w: u32)
    requires
        FIRST_DAY <= days <= LAST_DAY,
    ensures
        w as int == weekday(days as int),
{
    chrono::NaiveDate::from_num_days_from_ce_opt(days).unwrap().weekday().num_days_from_monday()
}

/// Calls chrono's `Utc::now`, `DateTime::date_naive` and `Datelike::num_days_from_ce`:
/// today's date in UTC. Nothing is claimed of which day it is, which depends on the
/// clock; the date returned is taken to lie from `FIRST_DAY` to `LAST_DAY`, as every
/// date chrono can hold does. `Utc::now` panics if the system clock is set before 1970.
#[verifier::external_body]
pub(crate) fn current_date() -> (d: Date)
{
    Date { days: chrono::Utc::now().date_naive().num_days_from_ce() }
}

} // verus!
