//! The wall clock, and points in time as text.
//!
//! The clock is read here. The machine's time zone is not: its offset
//! from UTC is the caller's to supply, and a point in time is put into
//! text at that offset.

use vstd::prelude::*;

verus! {

/// The form in which a host is stamped: day/month/year hour:minute:second.
pub const STAMP_FORMAT: &'static str = "%d/%m/%Y %H:%M:%S";

/// The form in which a message to the user is dated.
pub const MESSAGE_TIME_FORMAT: &'static str = "%Y-%m-%d %H:%M:%S";

/// The form in which a diagnostics entry is dated, to the millisecond.
pub const DIAGNOSTICS_TIME_FORMAT: &'static str = "%Y-%m-%d %H:%M:%S%.3f";

/// The last second, counted from the Unix epoch, of the year 9999.
pub const LAST_SECOND: i64 = 253_402_300_799;

/// The nanoseconds of a second.
pub const NANOS_PER_SECOND: u32 = 1_000_000_000;

/// The seconds of a day: an offset from UTC stays below it.
pub const OFFSET_LIMIT: i32 = 86_400;

/// A point in time: the seconds since the Unix epoch and the nanoseconds
/// after them, with the offset of local time from UTC, in seconds to the
/// east.
#[derive(Clone, Copy, Debug, PartialEq, Eq, Structural)]
pub struct Moment {
    pub seconds: i64,
    pub nanos: u32,
    pub utc_offset: i32,
}

/// The text of a point in time in a given form: what `chrono` writes for
/// the date and time of that many seconds and nanoseconds since the Unix
/// epoch, at that offset from UTC.
pub uninterp spec fn time_text_of(
    seconds: i64,
    nanos: u32,
    utc_offset: i32,
    format: Seq<char>,
) -> Option<Seq<char>>;

/// `chrono::DateTime::from_timestamp`, moved to the offset that
/// `chrono::FixedOffset::east_opt` makes, and written in the given form
/// by `chrono::format::DelayedFormat::write_to`. The time lies between
/// the Unix epoch and the end of the year 9999, the offset within a day,
/// and the form is one of the two that this crate stamps and dates with:
/// on these, every step either gives its value or reports that it has
/// none.
#[verifier::external_body]
fn time_text(seconds: i64, nanos: u32, utc_offset: i32, format: &str) -> (text: Option<String>)
    requires
        0 <= seconds <= LAST_SECOND,
        nanos < NANOS_PER_SECOND,
        -OFFSET_LIMIT < utc_offset < OFFSET_LIMIT,
        format@ == STAMP_FORMAT@ || format@ == DIAGNOSTICS_TIME_FORMAT@,
    ensures
        match text {
            Some(t) => time_text_of(seconds, nanos, utc_offset, format@) == Some(t@),
            None => time_text_of(seconds, nanos, utc_offset, format@).is_none(),
        },
{
    let utc = chrono::DateTime::from_timestamp(seconds, nanos)?;
    let zone = chrono::FixedOffset::east_opt(utc_offset)?;
    let mut text = String::new();
    utc.with_timezone(&zone).format(format).write_to(&mut text).ok()?;
    Some(text)
}

/// `SystemTime::now`, as the whole seconds since the Unix epoch and the
/// nanoseconds after them; nothing for a clock that stands before the
/// epoch. Nothing is known of the values: they are the machine's time.
#[verifier::external_body]
fn clock_reading() -> (reading: Option<(u64, u32)>) {
    std::time::SystemTime::now().duration_since(std::time::UNIX_EPOCH).ok().map(
        |since| (since.as_secs(), since.subsec_nanos()),
    )
}

/// The whole seconds since the Unix epoch by the machine's clock;
/// nothing for a clock that stands before the epoch.
pub(crate) fn unix_seconds() -> (seconds: Option<u64>) {
    match clock_reading() {
        Some(reading) => Some(reading.0),
        None => None,
    }
}

/// The text of `moment` in the form `format`: none for a moment before
/// the Unix epoch or after the year 9999, for nanoseconds that make up a
/// second, and for an offset of a day or more.
pub open spec fn moment_text_of(moment: Moment, format: Seq<char>) -> Option<Seq<char>> {
    if moment.tellable() {
        time_text_of(moment.seconds, moment.nanos, moment.utc_offset, format)
    } else {
        None
    }
}

/// Whether `text` is the text `expected`, or both are none.
pub open spec fn is_time_text(text: Option<String>, expected: Option<Seq<char>>) -> bool {
    match text {
        Some(t) => expected == Some(t@),
        None => expected.is_none(),
    }
}

impl Moment {
    /// Whether the moment can be put into text: it lies between the Unix
    /// epoch and the end of the year 9999, its nanoseconds stay below a
    /// second and its offset below a day.
    pub open spec fn tellable(self) -> bool {
        &&& 0 <= self.seconds <= LAST_SECOND
        &&& self.nanos < NANOS_PER_SECOND
        &&& -OFFSET_LIMIT < self.utc_offset < OFFSET_LIMIT
    }

    /// Whether the moment can be put into text.
    pub fn is_tellable(&self) -> (answer: bool)
        ensures
            answer == self.tellable(),
    {
        0 <= self.seconds && self.seconds <= LAST_SECOND && self.nanos < NANOS_PER_SECOND
            && -OFFSET_LIMIT < self.utc_offset && self.utc_offset < OFFSET_LIMIT
    }

    /// This moment by the machine's clock, for local time at
    /// `utc_offset`; none where the clock stands before the Unix epoch or
    /// after the year 9999.
    pub fn now(utc_offset: i32) -> (moment: Option<Moment>)
        ensures
            moment matches Some(m) ==> m.utc_offset == utc_offset && 0 <= m.seconds <= LAST_SECOND,
    {
        match clock_reading() {
            Some(reading) => {
                if reading.0 <= LAST_SECOND as u64 {
                    Some(Moment { seconds: reading.0 as i64, nanos: reading.1, utc_offset })
                } else {
                    None
                }
            },
            None => None,
        }
    }

    /// The moment in the form in which a host is stamped.
    pub fn stamp(&self) -> (text: Option<String>)
        ensures
            is_time_text(text, moment_text_of(*self, STAMP_FORMAT@)),
    {
        if self.is_tellable() {
            time_text(self.seconds, self.nanos, self.utc_offset, STAMP_FORMAT)
        } else {
            None
        }
    }

    /// The moment in the form in which a diagnostics entry is dated.
    pub fn diagnostics_time(&self) -> (text: Option<String>)
        ensures
            is_time_text(text, moment_text_of(*self, DIAGNOSTICS_TIME_FORMAT@)),
    {
        if self.is_tellable() {
            time_text(self.seconds, self.nanos, self.utc_offset, DIAGNOSTICS_TIME_FORMAT)
        } else {
            None
        }
    }
}

} // verus!
