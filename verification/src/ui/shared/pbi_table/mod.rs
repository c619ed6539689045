//! The issue table shared by the list and sprint screens: what it does with
//! the commands it gets.

pub mod actions;
pub mod columns;

use vstd::prelude::*;
use crate::commands::JiraCommand;
use crate::json::Json;
use crate::pbi::{Pbi, PbiV, pbi_views, story_points_readable, with_details};
use crate::ui::components::ui_table::{UiTable, next_row, prev_row};
use crate::ui::shared::pbi_table::actions::{TableAction, TableActionV, action_view, actions_view};
use crate::ui::shared::pbi_table::columns::{ColumnConfig, TableColumn};

verus! {

/// The issue table.
pub struct PbiTable {
    pub table: UiTable,
}

/// The issue of `pbis` at the selected row, if there is one.
pub open spec fn selected_of(selected: Option<usize>, pbis: Seq<PbiV>) -> Option<PbiV> {
    match selected {
        Some(i) => if i < pbis.len() {
            Some(pbis[i as int])
        } else {
            None
        },
        None => None,
    }
}

/// The actions a command gives, the selection being `selected` before the
/// command (and `after` once it moved).
pub open spec fn command_actions(cmd: JiraCommand, selected: Option<usize>, pbis: Seq<PbiV>) -> Seq<TableActionV> {
    match cmd {
        JiraCommand::GoUp => seq![TableActionV::ClearStatus],
        JiraCommand::GoDown => seq![TableActionV::ClearStatus],
        JiraCommand::GoRight | JiraCommand::OpenPbiDetails => match selected_of(selected, pbis) {
            Some(p) => seq![TableActionV::OpenDetail(p)],
            None => Seq::empty(),
        },
        JiraCommand::OpenRawPbiJson => match selected {
            Some(i) => seq![TableActionV::OpenRaw(i)],
            None => Seq::empty(),
        },
        JiraCommand::Refresh => match selected {
            Some(i) => seq![TableActionV::Refresh(i)],
            None => Seq::empty(),
        },
        JiraCommand::OpenInBrowser => match selected_of(selected, pbis) {
            Some(p) => seq![TableActionV::OpenInBrowser(p.key)],
            None => Seq::empty(),
        },
        JiraCommand::Quit => seq![TableActionV::Exit],
        _ => Seq::empty(),
    }
}

/// The selection after a command: moved by `GoUp` and `GoDown` (wrapping
/// around), unchanged otherwise.
pub open spec fn command_selection(cmd: JiraCommand, selected: Option<usize>, count: usize) -> Option<usize> {
    match cmd {
        JiraCommand::GoUp => Some(prev_row(selected, count)),
        JiraCommand::GoDown => Some(next_row(selected, count)),
        _ => selected,
    }
}

impl PbiTable {
    /// A table of `pbis` with the first row selected.
    pub fn new(pbis: Vec<Pbi>) -> (r: PbiTable)
        ensures
            r.table.selected == Some(0usize),
            r.table.column_config.columns@.len() == 0,
            pbi_views(r.table.pbis@) == pbi_views(pbis@),
    {
        PbiTable { table: UiTable::new(pbis) }
    }

    /// The issue of `pbis` at the selected row, if there is one.
    pub fn selected<'a>(&self, pbis: &'a [Pbi]) -> (r: Option<&'a Pbi>)
        ensures
            match r {
                Some(p) => selected_of(self.table.selected, pbi_views(pbis@)) == Some(p@),
                None => selected_of(self.table.selected, pbi_views(pbis@)) is None,
            },
    {
        self.table.selected(pbis)
    }

    /// A copy of the issue of `pbis` at the selected row, if there is one.
    pub fn selected_cloned(&self, pbis: &[Pbi]) -> (r: Option<Pbi>)
        ensures
            match r {
                Some(p) => selected_of(self.table.selected, pbi_views(pbis@)) == Some(p@),
                None => selected_of(self.table.selected, pbi_views(pbis@)) is None,
            },
    {
        match self.selected(pbis) {
            Some(p) => Some(p.copy()),
            None => None,
        }
    }

    /// Replaces the issues (see [`UiTable::load`]).
    pub fn load(&mut self, pbis: Vec<Pbi>)
        ensures
            pbi_views(final(self).table.pbis@) == pbi_views(pbis@),
            final(self).table.selected == (if old(self).table.selected is Some {
                old(self).table.selected
            } else if pbis@.len() > 0 {
                Some(0usize)
            } else {
                None
            }),
            final(self).table.column_config.columns@ == old(self).table.column_config.columns@,
    {
        self.table.load(pbis);
    }

    /// Shows these columns.
    pub fn set_columns(&mut self, columns: ColumnConfig)
        ensures
            final(self).table.column_config.columns@ == columns.columns@,
            final(self).table.selected == old(self).table.selected,
            pbi_views(final(self).table.pbis@) == pbi_views(old(self).table.pbis@),
    {
        self.table.set_columns(columns);
    }

    /// What the table does with a command, `pbis` being the issues shown:
    /// moving the selection, or asking its screen for something.
    pub fn handle_command(&mut self, cmd: &JiraCommand, pbis: &[Pbi]) -> (r: Vec<TableAction>)
        ensures
            actions_view(r@) == command_actions(*cmd, old(self).table.selected, pbi_views(pbis@)),
            final(self).table.selected == command_selection(*cmd, old(self).table.selected, old(self).table.pbis@.len() as usize),
            pbi_views(final(self).table.pbis@) == pbi_views(old(self).table.pbis@),
            final(self).table.column_config.columns@ == (match *cmd {
                JiraCommand::AddColumn(c) => old(self).table.column_config.columns@.push(TableColumn::Custom(c)),
                _ => old(self).table.column_config.columns@,
            }),
    {
        let mut out: Vec<TableAction> = Vec::new();
        match cmd {
            JiraCommand::GoUp => {
                self.table.navigate_up();
                out.push(TableAction::ClearStatus);
            },
            JiraCommand::GoDown => {
                self.table.navigate_down();
                out.push(TableAction::ClearStatus);
            },
            JiraCommand::GoRight | JiraCommand::OpenPbiDetails => {
                match self.selected_cloned(pbis) {
                    Some(p) => {
                        out.push(TableAction::OpenDetail(Box::new(p)));
                    },
                    None => {},
                }
            },
            JiraCommand::OpenRawPbiJson => {
                match self.table.selected_index() {
                    Some(i) => {
                        out.push(TableAction::OpenRaw(i));
                    },
                    None => {},
                }
            },
            JiraCommand::Refresh => {
                match self.table.selected_index() {
                    Some(i) => {
                        out.push(TableAction::Refresh(i));
                    },
                    None => {},
                }
            },
            JiraCommand::OpenInBrowser => {
                match self.selected(pbis) {
                    Some(p) => {
                        out.push(TableAction::OpenInBrowser(p.key.clone()));
                    },
                    None => {},
                }
            },
            JiraCommand::AddColumn(column) => {
                self.table.add_column(column.copy());
            },
            JiraCommand::Quit => {
                out.push(TableAction::Exit);
            },
            _ => {},
        }
        proof {
            assert(actions_view(out@) =~= command_actions(*cmd, old(self).table.selected, pbi_views(pbis@)));
        }
        out
    }
}

impl PbiTable {
    /// Fills in the details of issue `idx` from what fetching them gave
    /// (the issue answer, or the error's text) and reports it.
    pub fn load_pbi(&mut self, idx: usize, pbis: &mut Vec<Pbi>, fetched: Result<&Json, String>, doc: &Json) -> (r: Vec<
        TableAction,
    >)
        requires
            fetched matches Ok(resp) ==> story_points_readable(resp@.idx("fields"@), doc@),
        ensures
            idx >= old(pbis)@.len() ==> actions_view(r@) == Seq::<TableActionV>::empty() && pbi_views(final(pbis)@)
                == pbi_views(old(pbis)@),
            idx < old(pbis)@.len() ==> match fetched {
                Ok(resp) => {
                    &&& pbi_views(final(pbis)@) == pbi_views(old(pbis)@).update(
                        idx as int,
                        with_details(old(pbis)@[idx as int]@, resp@, doc@),
                    )
                    &&& actions_view(r@) == seq![TableActionV::SetStatus("Loaded "@ + old(pbis)@[idx as int].key@)]
                },
                Err(e) => {
                    &&& pbi_views(final(pbis)@) == pbi_views(old(pbis)@)
                    &&& actions_view(r@) == seq![
                        TableActionV::SetStatus("Error loading "@ + old(pbis)@[idx as int].key@ + ": "@ + e@),
                    ]
                },
            },
            final(self).table.selected == old(self).table.selected,
            final(self).table.column_config.columns@ == old(self).table.column_config.columns@,
            pbi_views(final(self).table.pbis@) == pbi_views(old(self).table.pbis@),
    {
        let mut out: Vec<TableAction> = Vec::new();
        if idx >= pbis.len() {
            assert(actions_view(out@) =~= Seq::<TableActionV>::empty());
            return out;
        }
        let key = pbis[idx].key.clone();
        match fetched {
            Ok(resp) => {
                let mut p = pbis[idx].copy();
                p.apply_details(resp, doc);
                let ghost pv = p@;
                pbis.set(idx, p);
                assert(pbi_views(pbis@) =~= pbi_views(old(pbis)@).update(idx as int, pv));
                let mut msg = "Loaded ".to_owned();
                msg.append(key.as_str());
                out.push(TableAction::SetStatus(msg));
            },
            Err(e) => {
                let mut msg = "Error loading ".to_owned();
                msg.append(key.as_str());
                msg.append(": ");
                msg.append(e.as_str());
                out.push(TableAction::SetStatus(msg));
            },
        }
        assert(actions_view(out@) =~= seq![action_view(out@[0])]);
        out
    }
}

} // verus!
