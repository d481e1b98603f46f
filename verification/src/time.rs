//! Instants as seconds since the Unix epoch, in UTC.
use vstd::prelude::*;
use crate::text;

verus! {

/// The first second of the calendar: January 1 of the year -262143.
pub const FIRST_SECOND: i64 = -8_334_601_228_800;

/// The last second of the calendar: December 31 of the year 262142.
pub const LAST_SECOND: i64 = 8_210_266_876_799;

/// Seconds of a day.
pub const DAY: i64 = 86_400;

/// Whether an instant has a date in the calendar.
pub open spec fn in_calendar(at: int) -> bool {
    FIRST_SECOND <= at <= LAST_SECOND
}

/// An instant to the nanosecond.
#[derive(Debug, Clone, Copy, PartialEq, Eq, Structural)]
pub struct Instant {
    /// Whole seconds since the epoch.
    pub at: i64,
    /// Nanoseconds into that second.
    pub nanos: u32,
}

impl Instant {
    /// Whether this is an instant of the calendar.
    pub open spec fn well_formed(self) -> bool {
        in_calendar(self.at as int) && self.nanos < 1_000_000_000
    }

    /// Whether this instant comes before another.
    pub open spec fn precedes(self, other: Instant) -> bool {
        self.at < other.at || self.at == other.at && self.nanos < other.nanos
    }

    /// Whether this instant comes before another.
    pub fn is_before(self, other: Instant) -> (yes: bool)
        ensures
            yes == self.precedes(other),
    {
        self.at < other.at || self.at == other.at && self.nanos < other.nanos
    }
}

/// Whether an instant has a date in the calendar of every time zone.
pub open spec fn well_inside_calendar(at: int) -> bool {
    FIRST_SECOND + 2 * DAY <= at <= LAST_SECOND - 2 * DAY
}

/// How an instant is written: the pattern of a date and what it leaves out.
#[derive(Debug, Clone, Copy, PartialEq, Eq, Structural)]
pub enum Pattern {
    /// `2026-08-01`
    Day,
    /// `10:11`
    Clock,
    /// `2026-08-01 10:11`
    Minute,
    /// `2026-08-01 10:11:12`
    Second,
    /// `2026-08-01T10:11:12+00:00`
    Rfc3339,
    /// `2026-08-01T10:11:12Z`
    Zulu,
}

impl Pattern {
    /// The pattern in the notation of `strftime`.
    pub open spec fn notation(self) -> Seq<char> {
        match self {
            Pattern::Day => "%Y-%m-%d"@,
            Pattern::Clock => "%H:%M"@,
            Pattern::Minute => "%Y-%m-%d %H:%M"@,
            Pattern::Second => "%Y-%m-%d %H:%M:%S"@,
            Pattern::Rfc3339 => "%Y-%m-%dT%H:%M:%S+00:00"@,
            Pattern::Zulu => "%Y-%m-%dT%H:%M:%SZ"@,
        }
    }

    /// The pattern in the notation of `strftime`.
    pub fn as_str(self) -> (notation: &'static str)
        ensures
            notation@ == self.notation(),
    {
        match self {
            Pattern::Day => "%Y-%m-%d",
            Pattern::Clock => "%H:%M",
            Pattern::Minute => "%Y-%m-%d %H:%M",
            Pattern::Second => "%Y-%m-%d %H:%M:%S",
            Pattern::Rfc3339 => "%Y-%m-%dT%H:%M:%S+00:00",
            Pattern::Zulu => "%Y-%m-%dT%H:%M:%SZ",
        }
    }
}

/// What `chrono::DateTime<Utc>::format` makes of an instant and a pattern.
pub uninterp spec fn utc_text(at: int, pattern: Seq<char>) -> Seq<char>;

/// Calls `chrono::DateTime::<Utc>::format` on the instant. The claim is that
/// the text depends on the instant and the pattern alone; which digits it has
/// is left to the calendar.
#[verifier::external_body]
fn chrono_format(at: i64, pattern: &'static str) -> (written: String)
    requires
        in_calendar(at as int),
        exists|known: Pattern| pattern@ == #[trigger] known.notation(),
    ensures
        written@ == utc_text(at as int, pattern@),
{
    chrono::DateTime::<chrono::Utc>::from_timestamp(at, 0).unwrap().format(pattern).to_string()
}

/// An instant written by a pattern.
pub open spec fn written(at: int, pattern: Pattern) -> Seq<char> {
    utc_text(at, pattern.notation())
}

/// Writes an instant by a pattern.
pub fn write_utc(at: i64, pattern: Pattern) -> (s: String)
    requires
        in_calendar(at as int),
    ensures
        s@ == written(at as int, pattern),
{
    let notation = pattern.as_str();
    assert(notation@ == pattern.notation());
    chrono_format(at, notation)
}

/// The longest duration there is, in seconds.
pub const LONGEST: u64 = 9_223_372_036_854_775;

/// The instant a number of seconds after another; none where the number is
/// more than a duration can hold, or the calendar ends before.
pub fn seconds_later(at: i64, seconds: u64) -> (later: Option<i64>)
    requires
        in_calendar(at as int),
    ensures
        later == (if seconds <= LONGEST && at + seconds <= LAST_SECOND {
            Some((at + seconds) as i64)
        } else {
            None
        }),
{
    if seconds > LONGEST {
        return None;
    }
    let later: i64 = at + seconds as i64;
    if later <= LAST_SECOND {
        Some(later)
    } else {
        None
    }
}

/// Whole days between two instants, rounded towards zero.
pub open spec fn days_between(first: int, last: int) -> int {
    if last >= first {
        (last - first) / (DAY as int)
    } else {
        -((first - last) / (DAY as int))
    }
}

/// Whole days between two instants, rounded towards zero.
pub fn whole_days(first: i64, last: i64) -> (days: i64)
    ensures
        days == days_between(first as int, last as int),
{
    if last >= first {
        let seconds: u64 = (last as i128 - first as i128) as u64;
        (seconds / 86_400) as i64
    } else {
        let seconds: u64 = (first as i128 - last as i128) as u64;
        0 - (seconds / 86_400) as i64
    }
}

/// Whether an instant in milliseconds has a date in the calendar.
pub open spec fn in_calendar_millis(at: int) -> bool {
    FIRST_SECOND * 1000 <= at <= LAST_SECOND * 1000
}

/// What `chrono::DateTime<Utc>::to_rfc3339_opts` makes of an instant in
/// milliseconds, with milliseconds and a `Z`.
pub uninterp spec fn utc_millis(at: int) -> Seq<char>;

/// Calls `chrono::DateTime::<Utc>::from_timestamp_millis` and
/// `to_rfc3339_opts` with `SecondsFormat::Millis`. The claim is that the text
/// depends on the instant alone.
#[verifier::external_body]
pub(crate) fn write_millis(at: i64) -> (written: String)
    requires
        in_calendar_millis(at as int),
    ensures
        written@ == utc_millis(at as int),
{
    chrono::DateTime::<chrono::Utc>::from_timestamp_millis(at)
        .unwrap()
        .to_rfc3339_opts(chrono::SecondsFormat::Millis, true)
}

// ---------------------------------------------------------------------------
// Laws
// ---------------------------------------------------------------------------

/// Whole days are counted: so many days have passed and not one more, and the
/// way back is as long.
pub proof fn law_days_are_whole(first: int, last: int)
    ensures
        first <= last ==> days_between(first, last) * DAY <= last - first < (days_between(first, last) + 1) * DAY,
        days_between(first, last) == -days_between(last, first),
        days_between(first, first) == 0,
{
}

/// One of two different instants comes before the other, and never both.
pub proof fn law_instants_are_ordered(a: Instant, b: Instant, c: Instant)
    ensures
        a.precedes(b) || b.precedes(a) || a == b,
        !(a.precedes(b) && b.precedes(a)),
        !a.precedes(a),
        a.precedes(b) && b.precedes(c) ==> a.precedes(c),
        a.at < b.at ==> a.precedes(b),
{
}

/// A finer pattern continues a coarser one: the minute is the day and the clock
/// behind it, and the second goes on from the minute.
pub proof fn law_finer_patterns_go_on_from_coarser()
    ensures
        text::begins(Pattern::Minute.notation(), Pattern::Day.notation()),
        text::ends(Pattern::Minute.notation(), Pattern::Clock.notation()),
        text::begins(Pattern::Second.notation(), Pattern::Minute.notation()),
        text::begins(Pattern::Rfc3339.notation(), Pattern::Day.notation()),
        text::begins(Pattern::Zulu.notation(), Pattern::Day.notation()),
        text::occurs_in(Pattern::Rfc3339.notation(), Pattern::Clock.notation()),
        text::ends(Pattern::Rfc3339.notation(), "+00:00"@),
        text::ends(Pattern::Zulu.notation(), "Z"@),
        Pattern::Minute.notation().len() == Pattern::Day.notation().len() + 1 + Pattern::Clock.notation().len(),
        Pattern::Second.notation().len() > Pattern::Minute.notation().len(),
{
    reveal_strlit("%Y-%m-%d");
    reveal_strlit("%H:%M");
    reveal_strlit("%Y-%m-%d %H:%M");
    reveal_strlit("%Y-%m-%d %H:%M:%S");
    reveal_strlit("%Y-%m-%dT%H:%M:%S+00:00");
    reveal_strlit("%Y-%m-%dT%H:%M:%SZ");
    reveal_strlit("+00:00");
    reveal_strlit("Z");
    let day = Pattern::Day.notation();
    let clock = Pattern::Clock.notation();
    let minute = Pattern::Minute.notation();
    let rfc = Pattern::Rfc3339.notation();
    let zulu = Pattern::Zulu.notation();
    assert(minute.subrange(0, 8) =~= day);
    assert(minute.subrange(9, 14) =~= clock);
    assert(Pattern::Second.notation().subrange(0, 14) =~= minute);
    assert(rfc.subrange(0, 8) =~= day);
    assert(rfc.subrange(9, 14) =~= clock);
    assert(text::occurs_at(rfc, clock, 9));
    assert(rfc.subrange(17, 23) =~= "+00:00"@);
    assert(zulu.subrange(0, 8) =~= day);
    assert(zulu.subrange(17, 18) =~= "Z"@);
}

} // verus!
