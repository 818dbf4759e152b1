//! Building a date whose day is clamped to the length of its month.
use vstd::prelude::*;

use crate::calendar::{days_in_month, valid_ymd, year_in_range, Date, OutOfBounds, Ymd};
use crate::chrono_ops::{month_num_days, ymd_opt};

verus! {

/// Day `day` of the given month, or its last day when the month is shorter.
/// The length is compared with `day` taken modulo 256 (as a `u8`); when that
/// comparison keeps `day` but the day does not exist, there is no date.
pub open spec fn clamp_ymd(year: int, month: int, day: u32) -> Result<Ymd, OutOfBounds> {
    let n: int = days_in_month(year, month);
    if n >= (day % 256) as int {
        if valid_ymd((year, month, day as int)) {
            Ok((year, month, day as int))
        } else {
            Err(OutOfBounds)
        }
    } else {
        Ok((year, month, n))
    }
}

/// Day `day` of the month, or the month's last day when it has fewer days.
pub fn from_ymd_clamp(year: i32, month: u32, day: u32) -> (r: Result<Date, OutOfBounds>)
    requires
        1 <= month <= 12,
        year_in_range(year as int),
    ensures
        crate::calendar::date_res(r) == clamp_ymd(year as int, month as int, day),
{
    let num_days: u32 = month_num_days(year, month);
    let day_byte: u32 = day % 256;
    let chosen: u32 = if num_days >= day_byte {
        day
    } else {
        num_days
    };
    match ymd_opt(year, month, chosen) {
        Some(d) => Ok(d),
        None => Err(OutOfBounds),
    }
}

} // verus!
