//! The time of day and the calendar, both from the crate `chrono`.

use vstd::prelude::*;

verus! {

/// How a moment is written: year, month and day, then hours, minutes
/// and seconds.
pub const MOMENT_LAYOUT: &'static str = "%Y-%m-%d %H:%M:%S";

/// The text, laid out as `MOMENT_LAYOUT` says, of the moment `secs`
/// seconds after the start of 1970, in universal time; `None` where
/// the calendar of `chrono` does not reach that moment.
pub uninterp spec fn calendar_text(secs: i64) -> Option<Seq<char>>;

/// `chrono::offset::Utc::now().timestamp()`: the seconds since the
/// start of 1970 by the clock of the machine. Nothing is known of the
/// value. The call does not return where the clock of the machine
/// stands before 1970: `chrono` panics there.
#[verifier::external_body]
pub fn current_timestamp() -> i64 {
    chrono::offset::Utc::now().timestamp()
}

/// `chrono::DateTime::from_timestamp(secs, 0)`, which is `None` where
/// the moment lies outside the calendar, and the text that `format`
/// gives for it with the layout `MOMENT_LAYOUT`. The text depends on
/// `secs` alone.
#[verifier::external_body]
pub(crate) fn timestamp_display(secs: i64) -> (r: Option<String>)
    ensures
        match r {
            Some(t) => calendar_text(secs) == Some(t@),
            None => calendar_text(secs) is None,
        },
{
    match chrono::DateTime::from_timestamp(secs, 0) {
        Some(moment) => Some(moment.format(MOMENT_LAYOUT).to_string()),
        None => None,
    }
}

} // verus!
