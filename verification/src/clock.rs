//! The clock: the moment at which something happens, and how a moment reads
//! as text. The calendar is chrono's.

use vstd::prelude::*;
use std::fmt::Write;
use crate::config::text_of;

verus! {

/// A moment as a clock in some time zone shows it: seconds and nanoseconds
/// since the start of 1970 in UTC, and the zone's distance east of UTC in
/// seconds.
#[derive(Clone, Copy, Debug, PartialEq, Eq, Structural)]
pub struct Moment {
    pub secs: i64,
    pub nanos: u32,
    pub offset: i32,
}

/// How chrono writes the moment `secs`, `nanos` in the zone `offset` under
/// the format `fmt`; `None` where the zone or the moment is out of chrono's
/// range, or where `fmt` is no valid format.
pub uninterp spec fn time_text(secs: int, nanos: int, offset: int, fmt: Seq<char>) -> Option<
    Seq<char>,
>;

/// The format of the time stamp before a logged line: hours, minutes,
/// seconds and milliseconds.
pub const LINE_TIME_FORMAT: &'static str = "%H:%M:%S%.3f";

/// The moment that `at` reads as under `fmt`.
pub open spec fn moment_text(at: Moment, fmt: Seq<char>) -> Option<Seq<char>> {
    time_text(at.secs as int, at.nanos as int, at.offset as int, fmt)
}

/// Reads the clock. Wraps `chrono::Local::now` and the three accessors that
/// take the moment apart; nothing is claimed of the moment that comes back.
#[verifier::external_body]
pub(crate) fn local_now() -> Moment {
    let now = chrono::Local::now();
    Moment {
        secs: now.timestamp(),
        nanos: now.timestamp_subsec_nanos(),
        offset: now.offset().local_minus_utc(),
    }
}

/// Writes a moment under a format. Wraps `chrono::DateTime::format` on the
/// moment that `FixedOffset::east_opt` and `TimeZone::timestamp_opt` make of
/// the three numbers. The text depends on the numbers and the format alone,
/// so the contract names it; it is `None` where chrono refuses the zone, the
/// moment or the format.
#[verifier::external_body]
pub(crate) fn format_moment(at: Moment, fmt: &str) -> (r: Option<String>)
    ensures
        text_of(r) == time_text(at.secs as int, at.nanos as int, at.offset as int, fmt@),
{
    let zone = chrono::FixedOffset::east_opt(at.offset)?;
    let when = chrono::TimeZone::timestamp_opt(&zone, at.secs, at.nanos).single()?;
    let mut out = String::new();
    match write!(out, "{}", when.format(fmt)) {
        Ok(()) => Some(out),
        Err(_) => None,
    }
}

/// The time stamp that goes before a line logged at the moment `at`.
pub fn line_stamp_at(at: Moment) -> (r: Option<String>)
    ensures
        text_of(r) == moment_text(at, LINE_TIME_FORMAT@),
{
    format_moment(at, LINE_TIME_FORMAT)
}

/// `stamp` is what some moment reads as under the format of line stamps;
/// `None` stands for a moment that has no such text.
pub open spec fn stamp_of_some_moment(stamp: Option<Seq<char>>) -> bool {
    exists|at: Moment| stamp == #[trigger] moment_text(at, LINE_TIME_FORMAT@)
}

/// The time stamp that goes before a line logged now. Whatever the clock
/// shows, the stamp is that of some moment.
pub fn line_stamp() -> (r: Option<String>)
    ensures
        stamp_of_some_moment(text_of(r)),
{
    let at = local_now();
    let r = line_stamp_at(at);
    assert(text_of(r) == moment_text(at, LINE_TIME_FORMAT@));
    r
}

} // verus!
