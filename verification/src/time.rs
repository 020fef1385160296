//! Points in time, and their text.

use vstd::prelude::*;

verus! {

/// A point in time: whole seconds since the Unix epoch, and nanoseconds after
/// that second. In a leap second the nanoseconds reach beyond one second.
#[derive(Copy, Clone, Debug, PartialEq, Eq, Structural)]
pub struct Timestamp {
    pub secs: i64,
    pub nanos: u32,
}

/// The first second of the year 10000, in seconds since the Unix epoch.
pub const YEAR_10000: u64 = 253_402_300_800;

impl Timestamp {
    /// Nanoseconds since the Unix epoch.
    pub open spec fn instant(self) -> int {
        self.secs * 1_000_000_000 + self.nanos
    }

    /// Whether the time lies in the years 1970 to 9999, which is what
    /// [`Timestamp::to_rfc3339_millis`] can write.
    pub open spec fn printable(self) -> bool {
        0 <= self.instant() < YEAR_10000 * 1_000_000_000
    }

    /// The text of [`Timestamp::to_rfc3339_millis`].
    pub open spec fn text(self) -> Seq<char> {
        rfc3339_millis(
            (self.instant() / 1_000_000_000) as u64,
            (self.instant() % 1_000_000_000) as u32,
        )
    }

    /// Whether the time can be written by [`Timestamp::to_rfc3339_millis`].
    pub fn is_printable(&self) -> (r: bool)
        ensures
            r == self.printable(),
    {
        let total: i128 = (self.secs as i128) * 1_000_000_000 + (self.nanos as i128);
        0 <= total && total < 253_402_300_800_000_000_000
    }

    /// The time as RFC 3339 text with milliseconds.
    pub fn to_rfc3339_millis(&self) -> (r: String)
        requires
            self.printable(),
        ensures
            r@ == self.text(),
    {
        let total: i128 = (self.secs as i128) * 1_000_000_000 + (self.nanos as i128);
        format_rfc3339_millis((total / 1_000_000_000) as u64, (total % 1_000_000_000) as u32)
    }
}

/// The text that `humantime::format_rfc3339_millis` gives for a time that lies
/// this many seconds, and nanoseconds below one second, after the Unix epoch.
pub uninterp spec fn rfc3339_millis(secs: u64, nanos: u32) -> Seq<char>;

/// Formats a time as RFC 3339 with milliseconds.
///
/// Calls `humantime::format_rfc3339_millis` and the `Display` of what it
/// returns; the text depends on the time alone. That `Display` fails from the
/// year 10000 on.
#[verifier::external_body]
fn format_rfc3339_millis(secs: u64, nanos: u32) -> (r: String)
    requires
        secs < YEAR_10000,
        nanos < 1_000_000_000,
    ensures
        r@ == rfc3339_millis(secs, nanos),
{
    let since_epoch = std::time::Duration::new(secs, nanos);
    humantime::format_rfc3339_millis(std::time::UNIX_EPOCH + since_epoch).to_string()
}

/// The current time.
///
/// Calls `chrono::Utc::now`: of the time it returns, only that it lies after
/// the Unix epoch, and not in a leap second.
#[verifier::external_body]
pub(crate) fn utc_now() -> (r: Timestamp)
    ensures
        r.in_range(),
{
    let now = chrono::Utc::now();
    Timestamp { secs: now.timestamp(), nanos: now.timestamp_subsec_nanos() }
}

/// A length of time.
#[derive(Copy, Clone, Debug, PartialEq, Eq, Structural)]
pub struct Duration {
    pub secs: u64,
    /// Nanoseconds below one second.
    pub nanos: u32,
}

/// The earliest time that can be reckoned with, in seconds since the Unix
/// epoch: the first of January of the year 262144 BCE.
pub const EARLIEST: i64 = -8_334_601_228_800;

/// The last second that can be reckoned with, in seconds since the Unix epoch:
/// the last of December of the year 262142.
pub const LATEST: i64 = 8_210_266_876_799;

/// The longest time span that can be reckoned with, in milliseconds.
pub const LONGEST_MILLIS: i64 = 0x7fff_ffff_ffff_ffff;

impl Duration {
    /// The length in nanoseconds.
    pub open spec fn length(self) -> int {
        self.secs * 1_000_000_000 + self.nanos
    }

    /// Whether the nanoseconds lie below one second.
    pub open spec fn well_formed(self) -> bool {
        self.nanos < 1_000_000_000
    }
}

impl Timestamp {
    /// Whether the time lies after the Unix epoch, in a year that can be
    /// reckoned with, and not in a leap second.
    pub open spec fn in_range(self) -> bool {
        0 <= self.secs <= LATEST && self.nanos < 1_000_000_000
    }
}

/// Whether this is the time that lies a length of time before another, if it
/// can be reckoned with.
pub open spec fn is_earlier_by(r: Option<Timestamp>, time: Timestamp, length: Duration) -> bool {
    let instant = time.instant() - length.length();
    match r {
        Some(t) => {
            &&& length.length() <= LONGEST_MILLIS * 1_000_000
            &&& EARLIEST * 1_000_000_000 <= instant
            &&& t.instant() == instant
            &&& t.nanos < 1_000_000_000
        },
        None => length.length() > LONGEST_MILLIS * 1_000_000 || instant < EARLIEST * 1_000_000_000,
    }
}

/// The time that lies a length of time before another.
///
/// Calls `chrono::TimeDelta::from_std`, which fails on what is longer than
/// `i64::MAX` milliseconds, and `chrono::DateTime::checked_sub_signed`, which
/// gives nothing where the time lies before the earliest one of `chrono`.
#[verifier::external_body]
pub(crate) fn earlier_by(time: Timestamp, length: Duration) -> (r: Option<Timestamp>)
    requires
        time.in_range(),
        length.well_formed(),
    ensures
        is_earlier_by(r, time, length),
{
    let length = std::time::Duration::new(length.secs, length.nanos);
    let delta = chrono::TimeDelta::from_std(length).ok()?;
    let time = chrono::DateTime::<chrono::Utc>::from_timestamp(time.secs, time.nanos)?;
    let earlier = time.checked_sub_signed(delta)?;
    Some(Timestamp { secs: earlier.timestamp(), nanos: earlier.timestamp_subsec_nanos() })
}

} // verus!
