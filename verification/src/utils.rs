//! Two small helpers for callers: the leap-year rule and the width of the machine word.

use vstd::prelude::*;

verus! {

/// The Gregorian rule: a year is a leap year where 400 divides it, or where 4 divides it and
/// 100 does not.
pub open spec fn is_leap_year(year: int) -> bool {
    year % 400 == 0 || (year % 4 == 0 && year % 100 != 0)
}

/// Whether `year` is a leap year.
pub fn is_leap(year: i32) -> (leap: bool)
    ensures
        leap == is_leap_year(year as int),
{
    year % 400 == 0 || (year % 4 == 0 && year % 100 != 0)
}

/// Whether the machine word, `usize`, is 32 bits wide.
pub fn is_32bit() -> (narrow: bool)
    ensures
        narrow == (usize::BITS == 32),
        narrow == (usize::MAX == 0xFFFF_FFFF),
{
    usize::BITS == 32
}

} // verus!
