use vstd::prelude::*;

verus! {

/// A calendar date and time of day, in UTC.
#[derive(Debug, Clone, Copy, PartialEq, Eq)]
pub struct DateTime {
    pub year: i32,
    pub month: u8,
    pub day: u8,
    pub hour: u8,
    pub minute: u8,
    pub second: u8,
}

impl DateTime {
    /// Fields within their calendar ranges.
    pub open spec fn in_range(&self) -> bool {
        &&& 1 <= self.month <= 12
        &&& 1 <= self.day <= 31
        &&& self.hour < 24
        &&& self.minute < 60
        &&& self.second < 60
    }

    /// Whether the year can be written with four digits.
    pub open spec fn four_digit_year(&self) -> bool {
        0 <= self.year <= 9999
    }

    pub fn has_four_digit_year(&self) -> (r: bool)
        ensures
            r == self.four_digit_year(),
    {
        0 <= self.year && self.year <= 9999
    }
}

/// Relies on `time::OffsetDateTime::now_utc` and its calendar accessors:
/// without the `large-dates` feature a year lies in `-9999..=9999`, and
/// month, day, hour, minute and second lie in their calendar ranges.
#[verifier::external_body]
pub(crate) fn now_utc() -> (r: DateTime)
    ensures
        r.in_range(),
        -9999 <= r.year <= 9999,
{
    let now = time::OffsetDateTime::now_utc();
    DateTime {
        year: now.year(),
        month: u8::from(now.month()),
        day: now.day(),
        hour: now.hour(),
        minute: now.minute(),
        second: now.second(),
    }
}

} // verus!
