//! The sprint completion block: its data, and what it shows.

use vstd::prelude::*;
use crate::dates::{FIRST_DAY, LAST_DAY, today};
use crate::pbi::{Pbi, pbi_views};
use crate::text::{decimal, decimal_spec, head_sliceable, signed_decimal};
use crate::ui::components::progress::{
    BarColor, bar, bar_color_for, bar_text, color_for, compute_working_days, count_resolved, days_left,
    days_left_text, percent_of, percentage, resolved_count, working_days,
};

verus! {

/// What the progress block shows: resolved and total issues, and the
/// weekdays left until the sprint's end (none when the end date is missing
/// or unreadable, zero once it has passed).
pub struct SprintProgressData {
    pub resolved: usize,
    pub total: usize,
    pub working_days_remaining: Option<i64>,
}

/// The working days as an optional integer.
pub open spec fn days_view(d: Option<i64>) -> Option<int> {
    match d {
        Some(x) => Some(x as int),
        None => None,
    }
}

impl SprintProgressData {
    /// The progress of a sprint's issues as of `today`: issues whose status
    /// contains `closed` or `resolved` (in any case) count as resolved.
    pub fn from_sprint_on(pbis: &[Pbi], end_date: &str, today: i64) -> (r: SprintProgressData)
        requires
            head_sliceable(end_date@, 10),
            FIRST_DAY <= today <= LAST_DAY,
        ensures
            r.total == pbis@.len(),
            r.resolved == resolved_count(pbi_views(pbis@)),
            days_view(r.working_days_remaining) == working_days(end_date@, today as int),
    {
        SprintProgressData {
            resolved: count_resolved(pbis),
            total: pbis.len(),
            working_days_remaining: compute_working_days(end_date, today),
        }
    }

    /// The progress of a sprint's issues as of today's date on the local
    /// clock.
    pub fn from_sprint(pbis: &[Pbi], end_date: &str) -> (r: SprintProgressData)
        requires
            head_sliceable(end_date@, 10),
        ensures
            r.total == pbis@.len(),
            r.resolved == resolved_count(pbi_views(pbis@)),
            exists|day: int|
                FIRST_DAY <= day <= LAST_DAY && days_view(r.working_days_remaining) == #[trigger] working_days(
                    end_date@,
                    day,
                ),
    {
        let day = today();
        let r = Self::from_sprint_on(pbis, end_date, day);
        assert(days_view(r.working_days_remaining) == working_days(end_date@, day as int));
        r
    }
}

/// The number of cells of the bar.
pub const BAR_WIDTH: usize = 28;

/// The parts of the progress block's line.
pub struct ProgressView {
    /// The bar: one full cell per 1/28 of the issues resolved.
    pub bar: String,
    /// ` P% (R/T resolved)`.
    pub summary: String,
    /// The working days left, or nothing.
    pub days_label: String,
    pub color: BarColor,
}

/// ` P% (R/T resolved)`.
pub open spec fn summary_text(resolved: nat, total: nat) -> Seq<char> {
    " "@ + decimal_spec(percentage(resolved as int, total as int) as nat) + "% ("@ + decimal_spec(resolved) + "/"@
        + decimal_spec(total) + " resolved)"@
}

/// The label for the working days left.
pub open spec fn block_days_label(d: Option<int>) -> Seq<char> {
    match d {
        Some(x) => if x == 0 {
            " \u{23f1} Sprint ends today!"@
        } else {
            " \u{23f1} "@ + days_left_text(x)
        },
        None => Seq::empty(),
    }
}

/// The full cells of the bar: 28 for all issues resolved.
pub open spec fn filled_cells(resolved: int, total: int) -> int {
    if total > 0 {
        resolved * 28 / total
    } else {
        0
    }
}

/// The stateless renderer of the sprint completion block.
pub struct ProgressBlock;

impl ProgressBlock {
    pub fn new() -> (r: ProgressBlock) {
        ProgressBlock
    }

    /// What the block shows for `data`.
    pub fn view(&self, data: &SprintProgressData) -> (r: ProgressView)
        requires
            data.resolved <= data.total,
            data.resolved * 100 <= usize::MAX,
        ensures
            r.bar@ == bar_text(
                filled_cells(data.resolved as int, data.total as int) as nat,
                (28 - filled_cells(data.resolved as int, data.total as int)) as nat,
            ),
            r.summary@ == summary_text(data.resolved as nat, data.total as nat),
            r.days_label@ == block_days_label(days_view(data.working_days_remaining)),
            r.color == bar_color_for(percentage(data.resolved as int, data.total as int)),
    {
        let pct = percent_of(data.resolved, data.total);
        let filled: usize = if data.total > 0 {
            let ghost rs = data.resolved as int;
            let ghost ts = data.total as int;
            assert(rs * 28 <= ts * 28) by (nonlinear_arith)
                requires
                    rs <= ts,
            ;
            assert((rs * 28) / ts <= 28) by (nonlinear_arith)
                requires
                    rs * 28 <= ts * 28,
                    ts > 0,
                    rs >= 0,
            ;
            data.resolved * BAR_WIDTH / data.total
        } else {
            0
        };
        let bar_s = bar(filled, BAR_WIDTH - filled);
        let mut summary = " ".to_owned();
        let p = decimal(pct as u64);
        summary.append(p.as_str());
        summary.append("% (");
        let a = decimal(data.resolved as u64);
        summary.append(a.as_str());
        summary.append("/");
        let b = decimal(data.total as u64);
        summary.append(b.as_str());
        summary.append(" resolved)");
        let days_label = match data.working_days_remaining {
            Some(d) => if d == 0 {
                " \u{23f1} Sprint ends today!".to_owned()
            } else {
                let mut s = " \u{23f1} ".to_owned();
                let t = days_left(d);
                s.append(t.as_str());
                s
            },
            None => String::new(),
        };
        ProgressView { bar: bar_s, summary, days_label, color: color_for(pct) }
    }
}

} // verus!
