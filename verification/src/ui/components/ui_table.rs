//! The issue table widget: its issues, its columns and which row is
//! selected. Moving the selection wraps around at both ends.

use vstd::prelude::*;
use crate::pbi::{Pbi, pbi_views};
use crate::ui::shared::pbi_table::columns::{ColumnConfig, CustomColumn, TableColumn};

verus! {

/// The row selected after moving down in a list of `count` rows: the next
/// one, the first after the last, the first when none was selected.
pub open spec fn next_row(selected: Option<usize>, count: usize) -> usize {
    match selected {
        Some(i) => if i >= (if count > 0 {
            count - 1
        } else {
            0
        }) {
            0
        } else {
            (i + 1) as usize
        },
        None => 0,
    }
}

/// The row selected after moving up in a list of `count` rows: the
/// previous one, the last before the first, the first when none was
/// selected.
pub open spec fn prev_row(selected: Option<usize>, count: usize) -> usize {
    match selected {
        Some(i) => if i == 0 {
            (if count > 0 {
                count - 1
            } else {
                0
            }) as usize
        } else {
            (i - 1) as usize
        },
        None => 0,
    }
}

/// The row selected after moving down.
pub fn row_below(selected: Option<usize>, count: usize) -> (r: usize)
    ensures
        r == next_row(selected, count),
{
    match selected {
        Some(i) => if i >= count.saturating_sub(1) {
            0
        } else {
            i + 1
        },
        None => 0,
    }
}

/// The row selected after moving up.
pub fn row_above(selected: Option<usize>, count: usize) -> (r: usize)
    ensures
        r == prev_row(selected, count),
{
    match selected {
        Some(i) => if i == 0 {
            count.saturating_sub(1)
        } else {
            i - 1
        },
        None => 0,
    }
}

/// Moving down then up, or up then down, comes back to the row selected
/// before, in a list that has that row.
pub proof fn law_down_up_returns(i: usize, count: usize)
    requires
        i < count,
    ensures
        prev_row(Some(next_row(Some(i), count)), count) == i,
        next_row(Some(prev_row(Some(i), count)), count) == i,
{
}

/// Moving down from the last row selects the first one; moving up from the
/// first row selects the last one.
pub proof fn law_wraps_around(count: usize)
    requires
        count > 0,
    ensures
        next_row(Some((count - 1) as usize), count) == 0,
        prev_row(Some(0), count) == count - 1,
{
}

/// The issue table.
pub struct UiTable {
    pub selected: Option<usize>,
    pub column_config: ColumnConfig,
    pub pbis: Vec<Pbi>,
}

impl UiTable {
    /// A table of `pbis` without columns, with the first row selected.
    pub fn new(pbis: Vec<Pbi>) -> (r: UiTable)
        ensures
            r.selected == Some(0usize),
            r.column_config.columns@.len() == 0,
            pbi_views(r.pbis@) == pbi_views(pbis@),
    {
        UiTable { selected: Some(0), column_config: ColumnConfig::new(), pbis }
    }

    /// Shows these columns.
    pub fn set_columns(&mut self, column_config: ColumnConfig)
        ensures
            final(self).column_config.columns@ == column_config.columns@,
            final(self).selected == old(self).selected,
            pbi_views(final(self).pbis@) == pbi_views(old(self).pbis@),
    {
        self.column_config = column_config;
    }

    /// Adds a plugin column at the end.
    pub fn add_column(&mut self, column: CustomColumn)
        ensures
            final(self).column_config.columns@ == old(self).column_config.columns@.push(TableColumn::Custom(column)),
            final(self).selected == old(self).selected,
            pbi_views(final(self).pbis@) == pbi_views(old(self).pbis@),
    {
        self.column_config.add_custom(column);
    }

    /// The selected row, if any.
    pub fn selected_index(&self) -> (r: Option<usize>)
        ensures
            r == self.selected,
    {
        self.selected
    }

    /// The issue of `pbis` at the selected row, if there is one.
    pub fn selected<'a>(&self, pbis: &'a [Pbi]) -> (r: Option<&'a Pbi>)
        ensures
            match r {
                Some(p) => self.selected matches Some(i) && i < pbis@.len() && *p == pbis@[i as int],
                None => !(self.selected matches Some(i) && i < pbis@.len()),
            },
    {
        match self.selected {
            Some(i) => if i < pbis.len() {
                Some(&pbis[i])
            } else {
                None
            },
            None => None,
        }
    }

    /// Selects the first row, or nothing when the table is empty.
    pub fn reset_selection(&mut self)
        ensures
            final(self).selected == (if old(self).pbis@.len() > 0 {
                Some(0usize)
            } else {
                None
            }),
            pbi_views(final(self).pbis@) == pbi_views(old(self).pbis@),
            final(self).column_config.columns@ == old(self).column_config.columns@,
    {
        if self.pbis.len() > 0 {
            self.selected = Some(0);
        } else {
            self.selected = None;
        }
    }

    /// Replaces the issues; without a selection, selects the first row.
    pub fn load(&mut self, pbis: Vec<Pbi>)
        ensures
            pbi_views(final(self).pbis@) == pbi_views(pbis@),
            final(self).selected == (if old(self).selected is Some {
                old(self).selected
            } else if pbis@.len() > 0 {
                Some(0usize)
            } else {
                None
            }),
            final(self).column_config.columns@ == old(self).column_config.columns@,
    {
        self.pbis = pbis;
        if self.selected.is_none() {
            self.reset_selection();
        }
    }

    /// Moves the selection down, wrapping to the first row.
    pub fn navigate_down(&mut self)
        ensures
            final(self).selected == Some(next_row(old(self).selected, old(self).pbis@.len() as usize)),
            pbi_views(final(self).pbis@) == pbi_views(old(self).pbis@),
            final(self).column_config.columns@ == old(self).column_config.columns@,
    {
        self.selected = Some(row_below(self.selected, self.pbis.len()));
    }

    /// Moves the selection up, wrapping to the last row.
    pub fn navigate_up(&mut self)
        ensures
            final(self).selected == Some(prev_row(old(self).selected, old(self).pbis@.len() as usize)),
            pbi_views(final(self).pbis@) == pbi_views(old(self).pbis@),
            final(self).column_config.columns@ == old(self).column_config.columns@,
    {
        self.selected = Some(row_above(self.selected, self.pbis.len()));
    }
}

} // verus!
