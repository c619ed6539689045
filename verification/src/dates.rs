//! Points in time and calendar days, as the library reads them from Jira
//! and from the clock, and the arithmetic done on them.

use vstd::prelude::*;
use chrono::Datelike;

verus! {

/// A point in time in UTC: seconds since 1970-01-01T00:00:00 and the
/// nanoseconds past that second (from 1_000_000_000 on during a leap
/// second, as `chrono` keeps them).
#[derive(Clone, Copy, Debug, PartialEq, Eq, Structural)]
pub struct Instant {
    pub secs: i64,
    pub nanos: u32,
}

/// Every instant that `chrono` can hold lies well within these bounds.
pub open spec fn instant_in_range(i: Instant) -> bool {
    -10_000_000_000_000 < i.secs < 10_000_000_000_000 && i.nanos < 2_000_000_000
}

/// What `DateTime::parse_from_str(text, "%FT%T%.f%z")` reads, in UTC.
pub uninterp spec fn jira_instant(text: Seq<char>) -> Option<Instant>;

/// Parses a Jira timestamp such as `2024-05-01T09:30:00.000+0200` with
/// `chrono` (`DateTime::parse_from_str` with `%FT%T%.f%z`) and converts it
/// to UTC. The contract names the result and states the range of
/// `chrono`'s dates.
#[verifier::external_body]
pub fn parse_jira_datetime(text: &str) -> (r: Option<Instant>)
    ensures
        r == jira_instant(text@),
        r matches Some(i) ==> instant_in_range(i),
{
    chrono::DateTime::parse_from_str(text, "%FT%T%.f%z").ok().map(|dt| {
        let utc = dt.with_timezone(&chrono::Utc);
        Instant { secs: utc.timestamp(), nanos: utc.timestamp_subsec_nanos() }
    })
}

/// What `chrono` writes with `%v %r` (such as ` 9-Mar-2026 09:00:00 AM`)
/// for a Jira timestamp read with `%FT%T%.f%z`, in the timestamp's own
/// offset; `None` where the text does not parse.
pub uninterp spec fn comment_time_text(text: Seq<char>) -> Option<Seq<char>>;

/// Reads a Jira timestamp (`DateTime::parse_from_str` with `%FT%T%.f%z`)
/// and formats it with `%v %r`; the contract names the result.
#[verifier::external_body]
pub fn format_comment_time(text: &str) -> (r: Option<String>)
    ensures
        crate::json::opt_view(r) == comment_time_text(text@),
{
    chrono::DateTime::parse_from_str(text, "%FT%T%.f%z").ok().map(|dt| dt.format("%v %r").to_string())
}

/// The current time (`chrono::Utc::now`); nothing is known of it but the
/// range of `chrono`'s dates.
#[verifier::external_body]
pub fn now_instant() -> (r: Instant)
    ensures
        instant_in_range(r),
{
    let now = chrono::Utc::now();
    Instant { secs: now.timestamp(), nanos: now.timestamp_subsec_nanos() }
}

/// Seconds since midnight of an instant.
pub open spec fn second_of_day(i: Instant) -> int {
    (i.secs as int) % 86400
}

/// Whole seconds from `start` to `end` as `chrono`'s
/// `signed_duration_since` and `TimeDelta::num_seconds` count them: a leap
/// second is counted once it has passed, and a negative duration is
/// rounded towards zero.
pub open spec fn seconds_between(end: Instant, start: Instant) -> int {
    let adjust: int = if second_of_day(end) > second_of_day(start) && start.nanos >= 1_000_000_000 {
        1
    } else if second_of_day(end) < second_of_day(start) && end.nanos >= 1_000_000_000 {
        -1
    } else {
        0
    };
    let frac: int = end.nanos as int - start.nanos as int;
    let secs: int = end.secs as int - start.secs as int + adjust + frac / 1_000_000_000;
    let nanos: int = frac % 1_000_000_000;
    if secs < 0 && nanos > 0 {
        secs + 1
    } else {
        secs
    }
}

/// `a / b` rounded towards zero, as Rust divides integers.
pub open spec fn div_toward_zero(a: int, b: int) -> int {
    if a >= 0 {
        a / b
    } else {
        -((-a) / b)
    }
}

/// Whole minutes from `start` to `end` (`(end - start).num_minutes()`).
pub open spec fn minutes_between(end: Instant, start: Instant) -> int {
    div_toward_zero(seconds_between(end, start), 60)
}

/// Whole minutes from `start` to `end`, as `chrono` counts them.
pub fn minutes_since(end: Instant, start: Instant) -> (r: i64)
    requires
        instant_in_range(end),
        instant_in_range(start),
    ensures
        r == minutes_between(end, start),
{
    let sod_end = end.secs % 86400;
    let sod_end = if sod_end < 0 {
        sod_end + 86400
    } else {
        sod_end
    };
    let sod_start = start.secs % 86400;
    let sod_start = if sod_start < 0 {
        sod_start + 86400
    } else {
        sod_start
    };
    assert(sod_end == second_of_day(end));
    assert(sod_start == second_of_day(start));
    let mut secs: i64 = end.secs - start.secs;
    if sod_end > sod_start && start.nanos >= 1_000_000_000 {
        secs = secs + 1;
    } else if sod_end < sod_start && end.nanos >= 1_000_000_000 {
        secs = secs - 1;
    }
    let frac: i64 = end.nanos as i64 - start.nanos as i64;
    let (carry, rest): (i64, i64) = if frac < 0 {
        if frac + 1_000_000_000 < 0 {
            (-2, frac + 2_000_000_000)
        } else if frac + 1_000_000_000 < 1_000_000_000 {
            (-1, frac + 1_000_000_000)
        } else {
            (0, frac)
        }
    } else if frac >= 1_000_000_000 {
        (1, frac - 1_000_000_000)
    } else {
        (0, frac)
    };
    assert(carry == frac as int / 1_000_000_000 && rest == frac as int % 1_000_000_000) by (nonlinear_arith)
        requires
            -2_000_000_000 < frac < 2_000_000_000,
            0 <= rest < 1_000_000_000,
            frac == carry * 1_000_000_000 + rest,
    ;
    let total: i64 = secs + carry;
    let whole: i64 = if total < 0 && rest > 0 {
        total + 1
    } else {
        total
    };
    let r: i64 = whole / 60;
    assert(r == div_toward_zero(whole as int, 60));
    r
}


/// The last day `chrono` can represent (262142-12-31).
pub const LAST_DAY: i64 = 95_026_236;

/// The first day `chrono` can represent (-262143-01-01).
pub const FIRST_DAY: i64 = -96_465_293;

/// What `NaiveDate::parse_from_str(text, "%Y-%m-%d")` reads, as `chrono`
/// counts days with `num_days_from_ce` (0001-01-01 is day 1).
pub uninterp spec fn ce_day(text: Seq<char>) -> Option<i32>;

/// Day 1970-01-01 in `chrono`'s count from the start of the common era.
pub open spec fn epoch_ce_day() -> int {
    719_163
}

/// The date a `YYYY-MM-DD` text names, as days since 1970-01-01.
pub open spec fn ymd_day(text: Seq<char>) -> Option<i64> {
    match ce_day(text) {
        Some(d) => Some((d - epoch_ce_day()) as i64),
        None => None,
    }
}

/// Parses a `YYYY-MM-DD` date with `chrono` (`NaiveDate::parse_from_str`
/// with `%Y-%m-%d`) and gives its `num_days_from_ce`. The contract names the
/// result and states the range of `chrono`'s dates.
#[verifier::external_body]
fn parse_ce_day(text: &str) -> (r: Option<i32>)
    ensures
        r == ce_day(text@),
        r matches Some(d) ==> FIRST_DAY + epoch_ce_day() <= d <= LAST_DAY + epoch_ce_day(),
{
    chrono::NaiveDate::parse_from_str(text, "%Y-%m-%d").ok().map(|d| d.num_days_from_ce())
}

/// Parses a `YYYY-MM-DD` date, as days since 1970-01-01.
pub fn parse_ymd(text: &str) -> (r: Option<i64>)
    ensures
        r == ymd_day(text@),
        r matches Some(d) ==> FIRST_DAY <= d <= LAST_DAY,
{
    match parse_ce_day(text) {
        Some(d) => Some(d as i64 - 719_163),
        None => None,
    }
}

/// Today's date on the local clock (`Local::now().date_naive()`), as its
/// `num_days_from_ce`; nothing is known of it but the range of `chrono`'s
/// dates.
#[verifier::external_body]
fn today_ce_day() -> (r: i32)
    ensures
        FIRST_DAY + epoch_ce_day() <= r <= LAST_DAY + epoch_ce_day(),
{
    chrono::Local::now().date_naive().num_days_from_ce()
}

/// Today's date on the local clock, as days since 1970-01-01.
pub fn today() -> (r: i64)
    ensures
        FIRST_DAY <= r <= LAST_DAY,
{
    today_ce_day() as i64 - 719_163
}

/// Whether a day falls on a Saturday or a Sunday (1970-01-01 was a
/// Thursday).
pub open spec fn is_weekend(d: int) -> bool {
    (d + 3) % 7 >= 5
}

/// The number of weekdays (Monday to Friday) from `from` to `to`, both
/// included.
pub open spec fn weekdays(from: int, to: int) -> nat
    decreases to - from + 1,
{
    if to < from {
        0
    } else if is_weekend(to) {
        weekdays(from, to - 1)
    } else {
        weekdays(from, to - 1) + 1
    }
}

proof fn lemma_weekdays_bound(from: int, to: int)
    ensures
        weekdays(from, to) <= (if to < from {
            0
        } else {
            to - from + 1
        }),
    decreases to - from + 1,
{
    if to >= from {
        lemma_weekdays_bound(from, to - 1);
    }
}

/// The weekdays from `today` to `end`, both included; `None` when `end` is
/// the last day `chrono` can represent (stepping past it fails).
pub fn count_working_days(end: i64, today: i64) -> (r: Option<i64>)
    requires
        FIRST_DAY <= end <= LAST_DAY,
        FIRST_DAY <= today <= LAST_DAY,
    ensures
        match r {
            Some(d) => !(today <= end && end == LAST_DAY) && d as int == weekdays(today as int, end as int),
            None => today <= end && end == LAST_DAY,
        },
{
    let mut count: i64 = 0;
    let mut d: i64 = today;
    while d <= end
        invariant
            FIRST_DAY <= end <= LAST_DAY,
            FIRST_DAY <= today <= LAST_DAY,
            today <= d <= end + 1 || (d == today && today > end),
            d <= LAST_DAY,
            count == weekdays(today as int, d - 1),
        decreases end + 1 - d,
    {
        proof {
            lemma_weekdays_bound(today as int, d - 1);
        }
        let w = (d + 3) % 7;
        let w = if w < 0 {
            w + 7
        } else {
            w
        };
        assert(w == (d + 3) % 7);
        if w < 5 {
            count = count + 1;
        }
        if d == LAST_DAY {
            return None;
        }
        d = d + 1;
    }
    Some(count)
}

proof fn lemma_weekdays_monotone(from: int, to: int, k: int)
    requires
        to <= k,
    ensures
        weekdays(from, to) <= weekdays(from, k),
    decreases k - to,
{
    if to < k {
        lemma_weekdays_monotone(from, to, k - 1);
    }
}

/// Any three days in a row hold a weekday, so a span of three days or more
/// has at least one.
pub proof fn law_three_days_hold_a_weekday(from: int, to: int)
    requires
        from + 2 <= to,
    ensures
        weekdays(from, to) >= 1,
{
    lemma_weekdays_monotone(from, from + 2, to);
    reveal_with_fuel(weekdays, 4);
    assert(!(is_weekend(from) && is_weekend(from + 1) && is_weekend(from + 2)));
}

} // verus!
