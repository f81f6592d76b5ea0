//! Calendar readings.
//!
//! The current date and time are read through trusted wrappers and handed to
//! the rest of the library as plain numbers; everything built from them
//! (identifier formatting, display strings) is verified.

use vstd::prelude::*;
use chrono::{Datelike, Timelike};

verus! {

/// One calendar reading, split into plain fields.
pub struct DateTimeParts {
    pub year: i32,
    /// Month number, 1 through 12.
    pub month: u32,
    /// Day of the month, 1 through 31.
    pub day: u32,
    /// Hour, 0 through 23.
    pub hour: u32,
    /// Minute, 0 through 59.
    pub minute: u32,
    /// Second, 0 through 59.
    pub second: u32,
}

/// The field ranges chrono documents for its calendar accessors.
pub open spec fn parts_in_range(p: DateTimeParts) -> bool {
    &&& 1 <= p.month <= 12
    &&& 1 <= p.day <= 31
    &&& p.hour <= 23
    &&& p.minute <= 59
    &&& p.second <= 59
}

/// Relies on `chrono::Local::now` for the current local time and on chrono's
/// `Datelike`/`Timelike` accessors (`year`, `month`, `day`, `hour`, `minute`,
/// `second`) to read it out as plain numbers. The reading depends on the
/// clock, so nothing is promised beyond the field ranges those accessors
/// document.
#[verifier::external_body]
pub fn local_now_parts() -> (r: DateTimeParts)
    ensures
        parts_in_range(r),
{
    let now = chrono::Local::now();
    DateTimeParts {
        year: now.year(),
        month: now.month(),
        day: now.day(),
        hour: now.hour(),
        minute: now.minute(),
        second: now.second(),
    }
}

/// Relies on `chrono::Utc::now` and the same `Datelike`/`Timelike` accessors
/// as `local_now_parts`, for callers that record times in UTC. Only the
/// documented field ranges are promised.
#[verifier::external_body]
pub fn utc_now_parts() -> (r: DateTimeParts)
    ensures
        parts_in_range(r),
{
    let now = chrono::Utc::now();
    DateTimeParts {
        year: now.year(),
        month: now.month(),
        day: now.day(),
        hour: now.hour(),
        minute: now.minute(),
        second: now.second(),
    }
}

} // verus!
