//! What the sprint progress widgets compute: how many issues are resolved,
//! the working days left, and the bar and its colour.

use vstd::prelude::*;
use crate::dates::{FIRST_DAY, LAST_DAY, count_working_days, parse_ymd, weekdays, ymd_day};
use crate::pbi::{Pbi, PbiV, is_done_status, pbi_views};
use crate::text::{byte_head, head_sliceable, str_head};

verus! {

/// The number of issues whose status counts as done.
pub open spec fn resolved_count(pbis: Seq<PbiV>) -> nat
    decreases pbis.len(),
{
    if pbis.len() == 0 {
        0
    } else {
        resolved_count(pbis.drop_last()) + if is_done_status(pbis.last().status) {
            1nat
        } else {
            0nat
        }
    }
}

/// The number of resolved issues.
pub fn count_resolved(pbis: &[Pbi]) -> (r: usize)
    ensures
        r == resolved_count(pbi_views(pbis@)),
{
    let ghost s = pbi_views(pbis@);
    let mut n: usize = 0;
    let mut i: usize = 0;
    while i < pbis.len()
        invariant
            s == pbi_views(pbis@),
            i <= pbis@.len(),
            n == resolved_count(s.take(i as int)),
            n <= i,
        decreases pbis@.len() - i,
    {
        assert(s.take(i + 1).drop_last() =~= s.take(i as int));
        assert(s.take(i + 1).last() == pbis@[i as int]@);
        if pbis[i].is_done() {
            n = n + 1;
        }
        i = i + 1;
    }
    assert(s.take(pbis@.len() as int) =~= s);
    n
}

/// The weekdays from `today` to the end date written at the start of
/// `end_text` (its first ten bytes, `YYYY-MM-DD`): none for an empty or
/// unreadable date, zero once the date has passed, and none when the date
/// is the last one `chrono` can represent.
pub open spec fn working_days(end_text: Seq<char>, today: int) -> Option<int> {
    if end_text.len() == 0 {
        None
    } else {
        match ymd_day(byte_head(end_text, 10)) {
            None => None,
            Some(end) => if today > end {
                Some(0)
            } else if end == LAST_DAY {
                None
            } else {
                Some(weekdays(today, end as int) as int)
            },
        }
    }
}

/// The weekdays left until the end date as of `today` (see
/// [`working_days`]).
pub fn compute_working_days(end_date_str: &str, today: i64) -> (r: Option<i64>)
    requires
        head_sliceable(end_date_str@, 10),
        FIRST_DAY <= today <= LAST_DAY,
    ensures
        match r {
            Some(d) => working_days(end_date_str@, today as int) == Some(d as int),
            None => working_days(end_date_str@, today as int) is None,
        },
{
    if end_date_str.unicode_len() == 0 {
        return None;
    }
    let head = str_head(end_date_str, 10);
    let end = match parse_ymd(head.as_str()) {
        Some(e) => e,
        None => {
            return None;
        },
    };
    if today > end {
        return Some(0);
    }
    count_working_days(end, today)
}

/// The colour of a progress bar.
#[derive(Clone, Copy, Debug, PartialEq, Eq, Structural)]
pub enum BarColor {
    Green,
    Yellow,
    Red,
}

/// Green from 80 %, yellow from 40 %, red below.
pub open spec fn bar_color_for(pct: int) -> BarColor {
    if pct >= 80 {
        BarColor::Green
    } else if pct >= 40 {
        BarColor::Yellow
    } else {
        BarColor::Red
    }
}

/// The colour for a percentage.
pub fn color_for(pct: usize) -> (r: BarColor)
    ensures
        r == bar_color_for(pct as int),
{
    if pct >= 80 {
        BarColor::Green
    } else if pct >= 40 {
        BarColor::Yellow
    } else {
        BarColor::Red
    }
}

/// `resolved * 100 / total` (0 without issues).
pub open spec fn percentage(resolved: int, total: int) -> int {
    if total > 0 {
        resolved * 100 / total
    } else {
        0
    }
}

/// The share of resolved issues, in whole percent.
pub fn percent_of(resolved: usize, total: usize) -> (r: usize)
    requires
        resolved * 100 <= usize::MAX,
    ensures
        r == percentage(resolved as int, total as int),
{
    if total > 0 {
        resolved * 100 / total
    } else {
        0
    }
}

/// `n` copies of `c`.
pub open spec fn repeated(c: char, n: nat) -> Seq<char> {
    Seq::new(n, |i: int| c)
}

/// A bar of `filled` full and `empty` empty cells between brackets.
pub open spec fn bar_text(filled: nat, empty: nat) -> Seq<char> {
    "["@ + repeated('\u{2588}', filled) + repeated('\u{2591}', empty) + "]"@
}

/// A bar of `filled` full and `empty` empty cells between brackets.
pub fn bar(filled: usize, empty: usize) -> (r: String)
    ensures
        r@ == bar_text(filled as nat, empty as nat),
{
    let mut s = "[".to_owned();
    let a = crate::text::repeat_char('\u{2588}', filled);
    s.append(a.as_str());
    let b = crate::text::repeat_char('\u{2591}', empty);
    s.append(b.as_str());
    s.append("]");
    s
}

/// `d working days left` (singular for one).
pub open spec fn days_left_text(d: int) -> Seq<char> {
    crate::text::signed_decimal_spec(d) + " working day"@ + (if d == 1 {
        ""@
    } else {
        "s"@
    }) + " left"@
}

/// `d working day(s) left`.
pub fn days_left(d: i64) -> (r: String)
    ensures
        r@ == days_left_text(d as int),
{
    let mut s = crate::text::signed_decimal(d);
    s.append(" working day");
    if d == 1 {
        s.append("");
    } else {
        s.append("s");
    }
    s.append(" left");
    s
}

} // verus!
