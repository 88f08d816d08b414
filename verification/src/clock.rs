//! Instants in UTC, and time that passes on a clock that does not go back.

use chrono::{DateTime, DurationRound, TimeDelta, Utc};
use vstd::prelude::*;

verus! {

/// The first second of the calendar that `chrono` covers.
pub const MIN_SECS: i64 = -8_334_601_228_800;

/// The last second of the calendar that `chrono` covers.
pub const MAX_SECS: i64 = 8_210_266_876_799;

/// Nanoseconds in a second.
pub const NANOS: u32 = 1_000_000_000;

/// An instant: seconds since 1970-01-01 00:00:00 UTC and the nanoseconds past
/// them. A leap second is the second before it, with a whole second more in
/// the nanoseconds.
#[derive(Clone, Copy, Debug, PartialEq, Eq, Structural)]
pub struct Timestamp {
    pub secs: i64,
    pub nanos: u32,
}

impl Timestamp {
    pub open spec fn is_leap(self) -> bool {
        self.nanos >= NANOS
    }

    /// The instant lies in the calendar.
    pub open spec fn valid(self) -> bool {
        &&& MIN_SECS <= self.secs <= MAX_SECS
        &&& self.nanos < 2 * NANOS
        &&& self.is_leap() ==> (self.secs as int) % 60 == 59
    }

    pub open spec fn before(self, other: Timestamp) -> bool {
        self.secs < other.secs || (self.secs == other.secs && self.nanos < other.nanos)
    }

    /// Nanoseconds since the start of 1970.
    pub open spec fn stamp(self) -> int {
        self.secs * 1_000_000_000 + self.nanos
    }

    /// The nanoseconds without what marks a leap second.
    pub open spec fn plain_nanos(self) -> u32 {
        if self.is_leap() {
            (self.nanos - NANOS) as u32
        } else {
            self.nanos
        }
    }

    /// The nanoseconds since 1970 can be counted in an `i64`: years 1677 to
    /// 2262.
    pub open spec fn stamp_fits(self) -> bool {
        let whole = if self.secs < 0 {
            self.secs + 1
        } else {
            self.secs as int
        };
        &&& i64::MIN <= whole * 1_000_000_000 <= i64::MAX
        &&& i64::MIN <= self.stamp() <= i64::MAX
    }

    /// The last multiple of `minutes` at or before the instant. Counted from
    /// inside a leap second that opens such a multiple, it is the start of the
    /// leap second.
    pub open spec fn truncated(self, minutes: int) -> Timestamp {
        let down = self.stamp() - self.stamp() % (minutes * 60_000_000_000);
        if self.is_leap() && down == (self.secs + 1) * 1_000_000_000 {
            Timestamp { secs: self.secs, nanos: NANOS }
        } else {
            Timestamp { secs: (down / 1_000_000_000) as i64, nanos: 0 }
        }
    }

    /// The instant `minutes` later, for a positive number of them.
    pub open spec fn later(self, minutes: int) -> Timestamp {
        Timestamp { secs: (self.secs + 60 * minutes) as i64, nanos: self.plain_nanos() }
    }

    /// The second of the instant `hours` earlier.
    pub open spec fn earlier_secs(self, hours: int) -> int {
        if hours > 0 && self.is_leap() {
            self.secs + 1 - 3600 * hours
        } else {
            self.secs - 3600 * hours
        }
    }

    /// The instant `hours` earlier.
    pub open spec fn earlier(self, hours: int) -> Timestamp {
        Timestamp {
            secs: self.earlier_secs(hours) as i64,
            nanos: if hours > 0 {
                self.plain_nanos()
            } else {
                self.nanos
            },
        }
    }

    /// `<` in time.
    pub fn lt(&self, other: &Timestamp) -> (r: bool)
        ensures
            r == self.before(*other),
    {
        self.secs < other.secs || (self.secs == other.secs && self.nanos < other.nanos)
    }
}

/// The date and time of an instant, written by a `strftime` pattern.
pub uninterp spec fn formatted(secs: i64, nanos: u32, pattern: Seq<char>) -> Seq<char>;

/// The patterns in use. Each asks for fields that every instant has.
pub open spec fn is_pattern(pattern: Seq<char>) -> bool {
    ||| pattern == "%Y"@
    ||| pattern == "%m"@
    ||| pattern == "%d"@
    ||| pattern == "%H"@
    ||| pattern == "%M"@
    ||| pattern == "%H:%M"@
    ||| pattern == "%H:%M UTC"@
    ||| pattern == "%Y-%m-%d %H:%M UTC"@
}

/// `DateTime::<Utc>::format`, written out as text. The contract names the text
/// for the instant and the pattern.
#[verifier::external_body]
pub(crate) fn format_utc(at: Timestamp, pattern: &str) -> (r: String)
    requires
        at.valid(),
        is_pattern(pattern@),
    ensures
        r@ == formatted(at.secs, at.nanos, pattern@),
{
    DateTime::<Utc>::from_timestamp(at.secs, at.nanos).unwrap().format(pattern).to_string()
}

/// `DateTime::<Utc>::duration_trunc` by a number of minutes: it gives the last
/// multiple of them, counted from 1970, and fails where the instant's
/// nanoseconds since 1970 do not fit in an `i64`.
#[verifier::external_body]
pub(crate) fn duration_trunc(at: Timestamp, minutes: i64) -> (r: Option<Timestamp>)
    requires
        at.valid(),
        0 < minutes,
        minutes * 60_000_000_000 <= i64::MAX,
    ensures
        r == if at.stamp_fits() {
            Some(at.truncated(minutes as int))
        } else {
            None
        },
{
    let utc = DateTime::<Utc>::from_timestamp(at.secs, at.nanos).unwrap();
    let down = utc.duration_trunc(TimeDelta::minutes(minutes)).ok()?;
    Some(Timestamp { secs: down.timestamp(), nanos: down.timestamp_subsec_nanos() })
}

/// `+` of a `DateTime<Utc>` and a positive number of minutes: the seconds grow
/// by that much, and a leap second is left behind.
#[verifier::external_body]
pub(crate) fn add_minutes(at: Timestamp, minutes: i64) -> (r: Timestamp)
    requires
        at.valid(),
        0 < minutes,
        at.secs + 60 * minutes <= MAX_SECS,
    ensures
        r == at.later(minutes as int),
{
    let utc = DateTime::<Utc>::from_timestamp(at.secs, at.nanos).unwrap();
    let sum = utc + TimeDelta::minutes(minutes);
    Timestamp { secs: sum.timestamp(), nanos: sum.timestamp_subsec_nanos() }
}

/// `-` of a number of hours from a `DateTime<Utc>`: the seconds shrink by that
/// much; from inside a leap second, they are counted back from the second
/// after it.
#[verifier::external_body]
pub(crate) fn sub_hours(at: Timestamp, hours: i64) -> (r: Timestamp)
    requires
        at.valid(),
        0 <= hours,
        at.earlier_secs(hours as int) >= MIN_SECS,
    ensures
        r == at.earlier(hours as int),
{
    let utc = DateTime::<Utc>::from_timestamp(at.secs, at.nanos).unwrap();
    let difference = utc - TimeDelta::hours(hours);
    Timestamp { secs: difference.timestamp(), nanos: difference.timestamp_subsec_nanos() }
}

/// `Utc::now`. It reads the system clock and stops the program where that is
/// set before 1970 or past the calendar; what it returns lies in the calendar, at or after the
/// start of 1970, and never in a leap second.
#[verifier::external_body]
pub(crate) fn utc_now() -> (r: Timestamp)
    ensures
        r.valid(),
        r.secs >= 0,
        !r.is_leap(),
{
    let now = Utc::now();
    Timestamp { secs: now.timestamp(), nanos: now.timestamp_subsec_nanos() }
}

/// Nanoseconds from `since` to `now`, both read off a clock that counts them
/// and does not go back.
pub open spec fn elapsed(since: u64, now: u64) -> int {
    if now < since {
        0
    } else {
        now - since
    }
}

/// Nanoseconds from `since` to `now`, none where `now` is the earlier one.
pub fn nanos_since(since: u64, now: u64) -> (r: u64)
    ensures
        r == elapsed(since, now),
{
    if now < since {
        0
    } else {
        now - since
    }
}

/// The calendar runs from `-262143-01-01` to `+262142-12-31`, and a leap second
/// is the sixty-first of its minute.
pub proof fn calendar_is_bounded(at: Timestamp)
    ensures
        at.valid() <==> -8_334_601_228_800 <= at.secs <= 8_210_266_876_799 && (at.nanos
            < 1_000_000_000 || (at.nanos < 2_000_000_000 && at.secs as int % 60 == 59)),
        at.is_leap() <==> at.nanos >= 1_000_000_000,
{
}

/// Instants are ordered by their seconds, and within a second by their
/// nanoseconds.
pub proof fn instants_are_ordered(a: Timestamp, b: Timestamp)
    ensures
        a.secs < b.secs ==> a.before(b) && !b.before(a),
        a.secs == b.secs ==> (a.before(b) <==> a.nanos < b.nanos),
        a.secs > b.secs ==> !a.before(b),
{
}

/// The nanoseconds since 1970 are a thousand million for each second and those
/// past it.
pub proof fn stamps_count_nanoseconds(at: Timestamp)
    ensures
        at.stamp() == at.secs * 1_000_000_000 + at.nanos,
        -9_223_372_035 <= at.secs <= 9_223_372_034 && at.nanos < 2_000_000_000 ==> at.stamp_fits(),
        at.stamp_fits() ==> -9_223_372_037 <= at.secs <= 9_223_372_036,
{
}

/// A number of hours earlier, the second is 3600 less for each of them. From
/// inside a leap second, hours are counted from the second after it.
pub proof fn hours_go_back(at: Timestamp, hours: int)
    requires
        at.valid(),
        0 <= hours,
        at.secs - 3600 * hours >= MIN_SECS,
    ensures
        hours == 0 ==> at.earlier(hours) == at,
        !at.is_leap() ==> at.earlier(hours).secs == at.secs - 3600 * hours && at.earlier(hours).nanos
            == at.nanos,
        at.is_leap() && hours > 0 ==> at.earlier(hours).secs == at.secs + 1 - 3600 * hours
            && at.earlier(hours).nanos == at.nanos - 1_000_000_000,
        at.earlier(hours).secs == at.earlier_secs(hours),
{
}

/// A number of minutes later, the second is 60 more for each of them, and a leap
/// second is left behind.
pub proof fn minutes_go_on(at: Timestamp, minutes: int)
    requires
        at.valid(),
        0 < minutes,
        at.secs + 60 * minutes <= MAX_SECS,
    ensures
        at.later(minutes).secs == at.secs + 60 * minutes,
        !at.is_leap() ==> at.later(minutes).nanos == at.nanos,
        at.is_leap() ==> at.later(minutes).nanos == at.nanos - 1_000_000_000,
{
}

/// Between two readings of a clock lies their difference, and never less than
/// nothing.
pub proof fn elapsed_is_the_difference(since: u64, now: u64)
    ensures
        now >= since ==> elapsed(since, now) == now - since,
        now < since ==> elapsed(since, now) == 0,
{
}

} // verus!
