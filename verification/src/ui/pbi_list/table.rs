//! The selection of the issue list's table.

use vstd::prelude::*;
use crate::ui::components::ui_table::{next_row, prev_row, row_above, row_below};

verus! {

/// The selection of the issue list's table.
pub struct IssueTable {
    pub selected: Option<usize>,
}

impl IssueTable {
    /// The first row selected, or none for an empty list.
    pub fn new(issue_count: usize) -> (r: IssueTable)
        ensures
            r.selected == (if issue_count > 0 {
                Some(0usize)
            } else {
                None
            }),
    {
        IssueTable {
            selected: if issue_count > 0 {
                Some(0)
            } else {
                None
            },
        }
    }

    /// Selects the first row, or none for an empty list.
    pub fn reset_selection(&mut self, issue_count: usize)
        ensures
            final(self).selected == (if issue_count > 0 {
                Some(0usize)
            } else {
                None
            }),
    {
        self.selected = if issue_count > 0 {
            Some(0)
        } else {
            None
        };
    }

    /// Moves down in a list of `count` rows, wrapping to the first.
    pub fn navigate_down(&mut self, count: usize)
        ensures
            final(self).selected == Some(next_row(old(self).selected, count)),
    {
        self.selected = Some(row_below(self.selected, count));
    }

    /// Moves up in a list of `count` rows, wrapping to the last.
    pub fn navigate_up(&mut self, count: usize)
        ensures
            final(self).selected == Some(prev_row(old(self).selected, count)),
    {
        self.selected = Some(row_above(self.selected, count));
    }
}

} // verus!
