//! The year in which a recipe is generated.

use vstd::prelude::*;

verus! {

/// The years since 1900, by the clock.
///
/// Not proved: this is `time::now` of the `time` crate, which reads the clock
/// and gives the current time in the local time zone; the field `tm_year` of
/// what it returns holds the years since 1900. The contract claims nothing of
/// the value, which depends on the clock and on the time zone of the machine.
/// `time::now` panics if the system cannot convert the time.
#[verifier::external_body]
fn current_tm_year() -> i32 {
    time::now().tm_year
}

/// The year that lies `tm_year` years after 1900.
pub open spec fn year_after_1900(tm_year: int) -> int {
    1900 + tm_year
}

/// The calendar year for a count of years since 1900.
pub fn calendar_year(tm_year: i32) -> (year: i64)
    ensures
        year == year_after_1900(tm_year as int),
{
    1900 + tm_year as i64
}

/// Reads the clock and returns the current calendar year.
///
/// Which year that is depends on the clock: the contract says only that it
/// is the calendar year of some count of years since 1900.
pub fn current_year() -> (year: i64)
    ensures
        exists|tm_year: i32| year == year_after_1900(tm_year as int),
{
    let tm_year = current_tm_year();
    calendar_year(tm_year)
}

} // verus!
