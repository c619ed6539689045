//! The sprint progress widget: a bar of one cell per issue, the share
//! resolved and the working days left.

use vstd::prelude::*;
use crate::dates::{FIRST_DAY, LAST_DAY, today};
use crate::text::head_sliceable;
use crate::ui::components::progress::{
    BarColor, bar, bar_color_for, bar_text, color_for, compute_working_days, days_left, days_left_text, percent_of,
    percentage, working_days,
};

verus! {

/// The sprint progress widget.
pub struct UiSprintProgress {
    pub title: String,
    pub total: usize,
    pub resolved: usize,
    pub end_date: String,
}

/// The label for the working days left.
pub open spec fn days_label(d: Option<int>) -> Seq<char> {
    match d {
        Some(x) => if x == 0 {
            "Sprint ends today!"@
        } else {
            days_left_text(x)
        },
        None => Seq::empty(),
    }
}

impl UiSprintProgress {
    pub fn new(title: &str, total: usize, resolved: usize, end_date: &str) -> (r: UiSprintProgress)
        ensures
            r.title@ == title@,
            r.total == total,
            r.resolved == resolved,
            r.end_date@ == end_date@,
    {
        UiSprintProgress { title: title.to_owned(), total, resolved, end_date: end_date.to_owned() }
    }

    /// The share of resolved issues, in whole percent.
    pub fn calculate_percentage(&self) -> (r: usize)
        requires
            self.resolved * 100 <= usize::MAX,
        ensures
            r == percentage(self.resolved as int, self.total as int),
    {
        percent_of(self.resolved, self.total)
    }

    /// One full cell per resolved issue, one empty cell per other issue.
    pub fn get_bars(&self) -> (r: String)
        requires
            self.resolved <= self.total,
        ensures
            r@ == bar_text(self.resolved as nat, (self.total - self.resolved) as nat),
    {
        bar(self.resolved, self.total - self.resolved)
    }

    /// The colour of the bar.
    pub fn get_color(&self) -> (r: BarColor)
        requires
            self.resolved * 100 <= usize::MAX,
        ensures
            r == bar_color_for(percentage(self.resolved as int, self.total as int)),
    {
        color_for(self.calculate_percentage())
    }

    /// The working days left as of `today`, as the widget shows them.
    pub fn get_label_on(&self, today: i64) -> (r: String)
        requires
            head_sliceable(self.end_date@, 10),
            FIRST_DAY <= today <= LAST_DAY,
        ensures
            r@ == days_label(working_days(self.end_date@, today as int)),
    {
        match compute_working_days(self.end_date.as_str(), today) {
            Some(d) => if d == 0 {
                "Sprint ends today!".to_owned()
            } else {
                days_left(d)
            },
            None => String::new(),
        }
    }

    /// The working days left as of today's date on the local clock.
    pub fn get_label(&self) -> (r: String)
        requires
            head_sliceable(self.end_date@, 10),
        ensures
            exists|day: int|
                FIRST_DAY <= day <= LAST_DAY && r@ == days_label(#[trigger] working_days(self.end_date@, day)),
    {
        let day = today();
        let r = self.get_label_on(day);
        assert(r@ == days_label(working_days(self.end_date@, day as int)));
        r
    }
}

} // verus!
