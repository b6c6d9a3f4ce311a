use chrono::{Datelike, Timelike};
use vstd::prelude::*;

verus! {

/// A calendar date and wall-clock time, as the store's date columns hold it
/// once SQLite has rendered them with `datetime(.., 'unixepoch', '+31 years')`.
#[derive(Clone, Copy, Debug, PartialEq, Eq, Structural)]
pub struct Timestamp {
    pub year: i32,
    pub month: u32,
    pub day: u32,
    pub hour: u32,
    pub minute: u32,
    pub second: u32,
}

impl Timestamp {
    /// Each field lies in its calendar range.
    pub open spec fn wf(self) -> bool {
        &&& 1 <= self.month <= 12
        &&& 1 <= self.day <= 31
        &&& self.hour <= 23
        &&& self.minute <= 59
        &&& self.second <= 59
    }
}

/// What chrono's `NaiveDateTime::parse_from_str(text, "%Y-%m-%d %H:%M:%S")`
/// makes of `text`, or `None` where it refuses it.
pub uninterp spec fn timestamp_of(text: Seq<char>) -> Option<Timestamp>;

/// Relies on chrono's `NaiveDateTime::parse_from_str` with the format
/// `%Y-%m-%d %H:%M:%S`, and on its `Datelike`/`Timelike` accessors, whose
/// documented ranges are month 1..=12, day 1..=31, hour 0..=23, minute and
/// second 0..=59.
#[verifier::external_body]
pub(crate) fn parse_timestamp(text: &str) -> (r: Option<Timestamp>)
    ensures
        r == timestamp_of(text@),
        r matches Some(t) ==> t.wf(),
{
    let d = chrono::NaiveDateTime::parse_from_str(text, "%Y-%m-%d %H:%M:%S").ok()?;
    Some(Timestamp {
        year: d.year(),
        month: d.month(),
        day: d.day(),
        hour: d.hour(),
        minute: d.minute(),
        second: d.second(),
    })
}

} // verus!
