//! The timestamp with which files on the SD card are stamped.

use vstd::prelude::*;

verus! {

/// A calendar date and time of day in the form the card's file system takes:
/// years counted from 1970, month and day counted from zero.
#[derive(Clone, Copy, Debug, PartialEq, Eq, Structural)]
pub struct SdTimestamp {
    pub year_since_1970: u8,
    pub zero_indexed_month: u8,
    pub zero_indexed_day: u8,
    pub hours: u8,
    pub minutes: u8,
    pub seconds: u8,
}

/// The fields name a date and a time of day, and the year is one that the
/// card can hold: 1970 to 2225.
pub open spec fn stampable(
    years_since_1970: Option<u32>,
    month0: u32,
    day0: u32,
    hour: u32,
    minute: u32,
    second: u32,
) -> bool {
    &&& years_since_1970 matches Some(years) && years <= 255
    &&& month0 < 12
    &&& day0 < 31
    &&& hour < 24
    &&& minute < 60
    &&& second < 60
}

/// Builds the card's timestamp from the fields of a calendar reading:
/// the whole years since 1970 (`None` before 1970), the month and the day
/// counted from zero, and the time of day. `None` where the card cannot
/// hold the reading; no field is ever cut to fit.
pub fn sd_timestamp(
    years_since_1970: Option<u32>,
    month0: u32,
    day0: u32,
    hour: u32,
    minute: u32,
    second: u32,
) -> (stamp: Option<SdTimestamp>)
    ensures
        stamp is Some <==> stampable(years_since_1970, month0, day0, hour, minute, second),
        stamp matches Some(t) ==> t.year_since_1970 == years_since_1970->0
            && t.zero_indexed_month == month0 && t.zero_indexed_day == day0 && t.hours == hour
            && t.minutes == minute && t.seconds == second,
{
    let years: u32 = match years_since_1970 {
        Some(years) => years,
        None => {
            return None;
        },
    };
    if years > 255 || month0 >= 12 || day0 >= 31 || hour >= 24 || minute >= 60 || second >= 60 {
        return None;
    }
    Some(
        SdTimestamp {
            year_since_1970: years as u8,
            zero_indexed_month: month0 as u8,
            zero_indexed_day: day0 as u8,
            hours: hour as u8,
            minutes: minute as u8,
            seconds: second as u8,
        },
    )
}

} // verus!
