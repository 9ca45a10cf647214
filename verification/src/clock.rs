//! Points in time, elapsed time and the time of day.

use vstd::prelude::*;

use crate::numbers;
use crate::text;

verus! {

/// The earliest second that RFC 3339 text can name.
pub const MIN_SECS: i64 = -62_167_305_540;

/// The last second of the calendar.
pub const MAX_SECS: i64 = 8_210_266_876_799;

/// Nanoseconds in a second.
pub const NANOS: u32 = 1_000_000_000;

/// A point in time: seconds since the Unix epoch, and nanoseconds into that second. A leap second
/// is a second of twice the length.
#[derive(Debug, Clone, Copy, PartialEq, Eq, Structural)]
pub struct Instant {
    pub secs: i64,
    pub nanos: u32,
}

impl Instant {
    /// The instant is on the calendar.
    pub open spec fn wf(self) -> bool {
        &&& MIN_SECS <= self.secs <= MAX_SECS
        &&& self.nanos < 2 * NANOS
        &&& self.nanos >= NANOS ==> self.secs as int % 60 == 59
    }

    /// The instant with these seconds and nanoseconds, if it is on the calendar.
    pub fn new(secs: i64, nanos: u32) -> (r: Option<Instant>)
        ensures
            match r {
                Some(t) => t == (Instant { secs, nanos }) && t.wf(),
                None => !(Instant { secs, nanos }).wf(),
            },
    {
        if secs < MIN_SECS || secs > MAX_SECS || nanos >= 2_000_000_000 {
            return None;
        }
        if nanos >= NANOS {
            let shifted: u64 = (secs - MIN_SECS) as u64;
            if shifted % 60 != 59 {
                return None;
            }
        }
        Some(Instant { secs, nanos })
    }
}

/// The instant that `chrono::DateTime::parse_from_rfc3339` reads from a text, as seconds and
/// nanoseconds.
pub uninterp spec fn rfc3339_instant(text: Seq<char>) -> Option<(i64, u32)>;

/// `chrono::DateTime::parse_from_rfc3339`: the instant that the text names, where it is RFC 3339.
/// Years have four digits, and only the last second of a minute can be a leap second.
#[verifier::external_body]
pub(crate) fn parse_rfc3339(text: &str) -> (r: Option<Instant>)
    ensures
        match r {
            Some(t) => rfc3339_instant(text@) == Some((t.secs, t.nanos)) && t.wf(),
            None => rfc3339_instant(text@) is None,
        },
{
    match chrono::DateTime::parse_from_rfc3339(text) {
        Ok(t) => Some(Instant { secs: t.timestamp(), nanos: t.timestamp_subsec_nanos() }),
        Err(_) => None,
    }
}

/// `chrono::Local::now`: the present, of which no more is said than that it is not before the
/// Unix epoch and not in a leap second.
#[verifier::external_body]
pub(crate) fn local_now() -> (now: Instant)
    ensures
        is_clock_reading(now),
{
    let now = chrono::Local::now();
    Instant { secs: now.timestamp(), nanos: now.timestamp_subsec_nanos() }
}

/// What a leap second at either end adds to the seconds between two instants: one that the earlier
/// instant is in is over when the later one comes at a later time of day, and the other way round.
pub open spec fn leap_correction(later: Instant, earlier: Instant) -> int {
    let later_time = later.secs as int % 86400;
    let earlier_time = earlier.secs as int % 86400;
    if later_time > earlier_time && earlier.nanos >= NANOS {
        1
    } else if later_time < earlier_time && later.nanos >= NANOS {
        -1
    } else {
        0
    }
}

/// The nanoseconds between two instants.
pub open spec fn nanos_between(later: Instant, earlier: Instant) -> int {
    (later.secs - earlier.secs + leap_correction(later, earlier)) * NANOS + (later.nanos
        - earlier.nanos)
}

/// The quotient rounded toward zero.
pub open spec fn toward_zero(n: int, d: int) -> int {
    if n >= 0 {
        n / d
    } else {
        -((-n) / d)
    }
}

/// The whole seconds from one instant to another, rounded toward zero.
pub open spec fn elapsed(later: Instant, earlier: Instant) -> int {
    toward_zero(nanos_between(later, earlier), NANOS as int)
}

/// `chrono::DateTime::signed_duration_since` and `TimeDelta::num_seconds`: the seconds from one
/// instant to another, rounded toward zero. A leap second that either instant is in counts, by
/// the times of day; no other leap second does.
#[verifier::external_body]
fn duration_in_seconds(later: Instant, earlier: Instant) -> (n: i64)
    requires
        later.wf(),
        earlier.wf(),
    ensures
        n == elapsed(later, earlier),
{
    let later = chrono::DateTime::from_timestamp(later.secs, later.nanos).unwrap_or_default();
    let earlier = chrono::DateTime::from_timestamp(earlier.secs, earlier.nanos).unwrap_or_default();
    later.signed_duration_since(earlier).num_seconds()
}

/// Counts the whole seconds from one instant to another.
pub fn seconds_between(later: Instant, earlier: Instant) -> (n: i64)
    requires
        later.wf(),
        earlier.wf(),
    ensures
        n == elapsed(later, earlier),
{
    duration_in_seconds(later, earlier)
}

/// A duration in its largest unit of which it holds at least one; never negative.
pub open spec fn uptime_text(seconds: int) -> Seq<char> {
    if seconds >= 86400 {
        numbers::decimal((seconds / 86400) as nat) + "d"@
    } else if seconds >= 3600 {
        numbers::decimal((seconds / 3600) as nat) + "h"@
    } else if seconds >= 60 {
        numbers::decimal((seconds / 60) as nat) + "m"@
    } else if seconds >= 0 {
        numbers::decimal(seconds as nat) + "s"@
    } else {
        numbers::decimal(0) + "s"@
    }
}

/// Writes a duration in seconds.
pub fn uptime_label(seconds: i64) -> (out: String)
    ensures
        out@ == uptime_text(seconds as int),
{
    let total: u64 = if seconds < 0 {
        0
    } else {
        seconds as u64
    };
    let mut out;
    if total >= 86400 {
        out = numbers::decimal_text(total / 86400);
        out.append("d");
    } else if total >= 3600 {
        out = numbers::decimal_text(total / 3600);
        out.append("h");
    } else if total >= 60 {
        out = numbers::decimal_text(total / 60);
        out.append("m");
    } else {
        out = numbers::decimal_text(total);
        out.append("s");
    }
    out
}

/// How long ago `started` was, at the instant `now`; `-` where `started` is not RFC 3339.
pub open spec fn uptime_at(started: Seq<char>, now: Instant) -> Seq<char> {
    match rfc3339_instant(started) {
        Some((secs, nanos)) => uptime_text(elapsed(now, Instant { secs, nanos })),
        None => "-"@,
    }
}

/// Writes how long ago a session was started, at a given instant.
pub fn format_uptime_at(started: &str, now: Instant) -> (out: String)
    requires
        now.wf(),
    ensures
        out@ == uptime_at(started@, now),
{
    match parse_rfc3339(started) {
        Some(start) => uptime_label(seconds_between(now, start)),
        None => "-".to_owned(),
    }
}

/// An instant that a clock can show: on the calendar, not before the Unix epoch, and not in a leap
/// second.
pub open spec fn is_clock_reading(now: Instant) -> bool {
    now.wf() && now.secs >= 0 && now.nanos < NANOS
}

/// `out` is the uptime of what was started at `started`, at some reading of the clock.
pub open spec fn is_uptime(out: Seq<char>, started: Seq<char>) -> bool {
    exists|now: Instant| is_clock_reading(now) && out == #[trigger] uptime_at(started, now)
}

/// Writes how long ago a session was started.
pub fn format_uptime(started: &str) -> (out: String)
    ensures
        is_uptime(out@, started@),
{
    let now = local_now();
    format_uptime_at(started, now)
}

/// A time of day: seconds since midnight, and nanoseconds into that second.
#[derive(Debug, Clone, Copy, PartialEq, Eq, Structural)]
pub struct TimeOfDay {
    pub secs: u32,
    pub nanos: u32,
}

impl TimeOfDay {
    /// The time is on the clock.
    pub open spec fn wf(self) -> bool {
        &&& self.secs < 86400
        &&& self.nanos < 2 * NANOS
        &&& self.nanos >= NANOS ==> self.secs as int % 60 == 59
    }

    /// The time with these seconds and nanoseconds, if it is on the clock.
    pub fn new(secs: u32, nanos: u32) -> (r: Option<TimeOfDay>)
        ensures
            match r {
                Some(t) => t == (TimeOfDay { secs, nanos }) && t.wf(),
                None => !(TimeOfDay { secs, nanos }).wf(),
            },
    {
        if secs >= 86400 || nanos >= 2_000_000_000 || (nanos >= NANOS && secs % 60 != 59) {
            None
        } else {
            Some(TimeOfDay { secs, nanos })
        }
    }
}

/// Two digits.
pub open spec fn two_digits(n: nat) -> Seq<char> {
    seq![numbers::digit_char(n / 10), numbers::digit_char(n % 10)]
}

/// Hours, minutes and seconds; a leap second counts as the sixtieth second.
pub open spec fn hms_text(time: TimeOfDay) -> Seq<char> {
    two_digits((time.secs / 3600) as nat) + ":"@ + two_digits(((time.secs / 60) % 60) as nat)
        + ":"@ + two_digits((time.secs % 60 + time.nanos / NANOS) as nat)
}

/// `chrono::NaiveTime::format` with `%H:%M:%S`: two digits each, with colons between them, and a
/// leap second written as one second more.
#[verifier::external_body]
fn format_hms(time: TimeOfDay) -> (out: String)
    requires
        time.wf(),
    ensures
        out@ == hms_text(time),
{
    chrono::NaiveTime::from_num_seconds_from_midnight_opt(time.secs, time.nanos)
        .unwrap_or_default()
        .format("%H:%M:%S")
        .to_string()
}

/// The line above each refresh of a watched session table.
pub open spec fn banner_text(now: TimeOfDay, interval_secs: u64) -> Seq<char> {
    "nono ps  -  refreshed "@ + hms_text(now) + "  (every "@ + numbers::decimal(
        interval_secs as nat,
    ) + "s)"@
}

/// Writes the line above each refresh of `nono ps --watch`.
pub fn format_watch_banner(now: TimeOfDay, interval_secs: u64) -> (out: String)
    requires
        now.wf(),
    ensures
        out@ == banner_text(now, interval_secs),
{
    let mut out = "nono ps  -  refreshed ".to_owned();
    out.append(format_hms(now).as_str());
    out.append("  (every ");
    out.append(numbers::decimal_text(interval_secs).as_str());
    out.append("s)");
    out
}

/// A start in the future has an uptime of zero seconds.
pub proof fn law_future_start_has_no_uptime(started: Seq<char>, now: Instant)
    requires
        rfc3339_instant(started) matches Some((secs, nanos)) && elapsed(
            now,
            Instant { secs, nanos },
        ) <= 0,
    ensures
        uptime_at(started, now) == numbers::decimal(0) + "s"@,
{
}

/// Elapsed time is counted alike in both directions.
pub proof fn law_elapsed_time_is_antisymmetric(a: Instant, b: Instant)
    requires
        a.nanos < NANOS,
        b.nanos < NANOS,
    ensures
        elapsed(a, b) == -elapsed(b, a),
{
    let (d, e) = (nanos_between(a, b), nanos_between(b, a));
    assert(d == -e) by (nonlinear_arith)
        requires
            d == (a.secs - b.secs) * NANOS + (a.nanos - b.nanos),
            e == (b.secs - a.secs) * NANOS + (b.nanos - a.nanos),
    ;
}

/// A duration is shown in the largest unit of which it holds at least one: days, hours, minutes or
/// seconds, and rounded down.
pub proof fn law_uptime_is_in_the_largest_unit(seconds: int, n: nat)
    ensures
        seconds <= 0 ==> uptime_text(seconds) == "0"@ + "s"@,
        0 < seconds < 60 && seconds == n ==> uptime_text(seconds) == numbers::decimal(n) + "s"@,
        60 <= seconds < 3600 && 60 * n <= seconds < 60 * (n + 1) ==> uptime_text(seconds)
            == numbers::decimal(n) + "m"@,
        3600 <= seconds < 86400 && 3600 * n <= seconds < 3600 * (n + 1)
            ==> uptime_text(seconds) == numbers::decimal(n) + "h"@,
        86400 <= seconds && 86400 * n <= seconds < 86400 * (n + 1)
            ==> uptime_text(seconds) == numbers::decimal(n) + "d"@,
{
    reveal_strlit("0");
    assert("0"@ =~= numbers::decimal(0));
}

/// The time between two instants outside of leap seconds is counted in whole seconds, what is left
/// over being dropped, and grows with the later of them: a second later it is a second more.
pub proof fn law_elapsed_time_counts_whole_seconds(later: Instant, earlier: Instant)
    requires
        later.nanos < NANOS,
        earlier.nanos < NANOS,
        (later.secs, later.nanos as int) == (earlier.secs, earlier.nanos as int) || later.secs
            > earlier.secs || (later.secs == earlier.secs && later.nanos > earlier.nanos),
    ensures
        ({
            let nanos = (later.secs - earlier.secs) * 1_000_000_000 + (later.nanos
                - earlier.nanos);
            elapsed(later, earlier) * 1_000_000_000 <= nanos < (elapsed(later, earlier) + 1)
                * 1_000_000_000
        }),
        later.nanos >= earlier.nanos ==> elapsed(later, earlier) == later.secs - earlier.secs,
        later.nanos < earlier.nanos ==> elapsed(later, earlier) == later.secs - earlier.secs - 1,
{
    let d = nanos_between(later, earlier);
    assert(d == (later.secs - earlier.secs) * NANOS + (later.nanos - earlier.nanos));
}

/// The time of day is shown as hours, minutes and seconds that make up the seconds since midnight.
pub proof fn law_clock_shows_the_time_of_day(h: nat, m: nat, s: nat, nanos: u32)
    requires
        h < 24,
        m < 60,
        s < 60,
        nanos < NANOS,
    ensures
        ({
            let time = TimeOfDay { secs: (h * 3600 + m * 60 + s) as u32, nanos };
            hms_text(time) == seq![
                numbers::digit_char(h / 10),
                numbers::digit_char(h % 10),
                ':',
                numbers::digit_char(m / 10),
                numbers::digit_char(m % 10),
                ':',
                numbers::digit_char(s / 10),
                numbers::digit_char(s % 10),
            ]
        }),
{
    reveal_strlit(":");
    let time = TimeOfDay { secs: (h * 3600 + m * 60 + s) as u32, nanos };
    assert(time.secs / 3600 == h);
    assert((time.secs / 60) % 60 == m);
    assert(time.secs % 60 == s);
    assert(hms_text(time) =~= seq![
        numbers::digit_char(h / 10),
        numbers::digit_char(h % 10),
        ':',
        numbers::digit_char(m / 10),
        numbers::digit_char(m % 10),
        ':',
        numbers::digit_char(s / 10),
        numbers::digit_char(s % 10),
    ]);
}

/// A leap second at the earlier instant counts as a second of its own for every later time of day,
/// and one at the later instant likewise in the other direction.
pub proof fn law_leap_seconds_count(leap: Instant, plain: Instant)
    requires
        leap.nanos >= 1_000_000_000,
        plain.nanos < 1_000_000_000,
    ensures
        plain.secs as int % 86400 > leap.secs as int % 86400 && plain.secs > leap.secs ==> ({
            let nanos = (plain.secs - leap.secs + 1) * 1_000_000_000 + (plain.nanos - leap.nanos);
            nanos >= 0 ==> elapsed(plain, leap) * 1_000_000_000 <= nanos < (elapsed(plain, leap)
                + 1) * 1_000_000_000
        }),
        plain.secs as int % 86400 > leap.secs as int % 86400 ==> nanos_between(plain, leap)
            == -nanos_between(leap, plain),
        plain.secs as int % 86400 <= leap.secs as int % 86400 ==> nanos_between(plain, leap) == (
        plain.secs - leap.secs) * 1_000_000_000 + (plain.nanos - leap.nanos),
{
    let d = nanos_between(plain, leap);
    let c = leap_correction(plain, leap);
    assert(d == (plain.secs - leap.secs + c) * NANOS + (plain.nanos - leap.nanos));
    if plain.secs as int % 86400 > leap.secs as int % 86400 {
        let e = nanos_between(leap, plain);
        let k = leap_correction(leap, plain);
        assert(e == (leap.secs - plain.secs + k) * NANOS + (leap.nanos - plain.nanos));
        assert(c == 1 && k == -1);
    }
}

/// The heading of a watched listing says when it was made and how often that is done again.
pub proof fn law_banner_says_when_and_how_often(now: TimeOfDay, interval_secs: u64)
    ensures
        text::has_substring(banner_text(now, interval_secs), hms_text(now)),
        text::has_substring(
            banner_text(now, interval_secs),
            "  (every "@ + numbers::decimal(interval_secs as nat) + "s)"@,
        ),
{
    let b = banner_text(now, interval_secs);
    let at = "nono ps  -  refreshed "@.len() as int;
    let (t, e) = (hms_text(now), "  (every "@ + numbers::decimal(interval_secs as nat) + "s)"@);
    assert(b.subrange(at, at + t.len()) =~= t);
    let end = at + t.len();
    assert(b.subrange(end, end + e.len()) =~= e);
}

/// An uptime is counted up to some time after 1970 that is no leap second, and it does not matter
/// which: every such time is one that the clock can show.
pub proof fn law_uptimes_are_those_at_some_time(
    out: Seq<char>,
    started: Seq<char>,
    secs: i64,
    nanos: u32,
)
    ensures
        ({
            let now = Instant { secs, nanos };
            now.wf() && secs >= 0 && nanos < 1_000_000_000 ==> is_uptime(
                uptime_at(started, now),
                started,
            )
        }),
        is_uptime(out, started) ==> exists|now: Instant| #[trigger]
            uptime_at(started, now) == out && now.secs >= 0 && now.nanos < 1_000_000_000,
{
    let now = Instant { secs, nanos };
    if now.wf() && secs >= 0 && nanos < 1_000_000_000 {
        assert(is_clock_reading(now));
    }
}

/// A start that is no timestamp has no uptime, which is shown as a dash.
pub proof fn law_unknown_starts_have_no_uptime(started: Seq<char>, now: Instant)
    ensures
        rfc3339_instant(started) is None ==> uptime_at(started, now) == "-"@,
        rfc3339_instant(started) matches Some((secs, nanos)) ==> uptime_at(started, now)
            == uptime_text(elapsed(now, Instant { secs, nanos })),
{
}

} // verus!
