//! Calendar dates as plain values, and today's date in the local time zone.
use chrono::Datelike;
use vstd::prelude::*;

verus! {

/// A calendar date: a year, a month from 1 to 12 and a day from 1 to 31.
#[derive(Clone, Copy, Debug)]
pub struct Date {
    pub year: i32,
    pub month: u32,
    pub day: u32,
}

impl Date {
    /// Month and day lie in their calendar ranges.
    pub open spec fn wf(self) -> bool {
        1 <= self.month <= 12 && 1 <= self.day <= 31
    }

    /// The date of `year`, `month` and `day`, where month and day are in range.
    pub fn new(year: i32, month: u32, day: u32) -> (r: Option<Date>)
        ensures
            r is Some <==> (1 <= month <= 12 && 1 <= day <= 31),
            r matches Some(d) ==> d.year == year && d.month == month && d.day == day && d.wf(),
    {
        if 1 <= month && month <= 12 && 1 <= day && day <= 31 {
            Some(Date { year, month, day })
        } else {
            None
        }
    }

    /// Today's date in the local time zone.
    pub fn today() -> (r: Date)
        ensures
            r.wf(),
    {
        let (year, month, day) = local_today();
        Date { year, month, day }
    }
}

/// Relies on chrono's `Local::now` read through `Datelike`: year, month
/// (documented as 1 to 12) and day of month (documented as 1 to 31).
#[verifier::external_body]
fn local_today() -> (r: (i32, u32, u32))
    ensures
        1 <= r.1 <= 12,
        1 <= r.2 <= 31,
{
    let now = chrono::Local::now();
    (now.year(), now.month(), now.day())
}

} // verus!
