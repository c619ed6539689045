//! What the issue table asks of the screen that holds it.

use vstd::prelude::*;
use crate::pbi::{Pbi, PbiV};

verus! {

/// What the issue table asks of its screen; the table itself only keeps its
/// own state.
pub enum TableAction {
    /// Leave the screen.
    Exit,
    /// Show this text in the footer.
    SetStatus(String),
    /// Clear the footer's status.
    ClearStatus,
    /// The issues changed; save the cache.
    SaveCache,
    /// Open the detail view of this issue.
    OpenDetail(Box<Pbi>),
    /// Open the raw JSON of the issue at this index in the editor.
    OpenRaw(usize),
    /// Reload the issue at this index.
    Refresh(usize),
    /// Reload all issues.
    RefreshAll,
    /// Open the plugin list.
    OpenPlugins,
    /// Start work on the issue at this index (run the plugins).
    StartWork(usize),
    /// Open the issue with this key in the web browser (the outcome is
    /// reported in the footer).
    OpenInBrowser(String),
    /// Nothing to do.
    Noop,
}

/// The value of an action.
pub enum TableActionV {
    Exit,
    SetStatus(Seq<char>),
    ClearStatus,
    SaveCache,
    OpenDetail(PbiV),
    OpenRaw(usize),
    Refresh(usize),
    RefreshAll,
    OpenPlugins,
    StartWork(usize),
    OpenInBrowser(Seq<char>),
    Noop,
}

/// The value of an action.
pub open spec fn action_view(a: TableAction) -> TableActionV {
    match a {
        TableAction::Exit => TableActionV::Exit,
        TableAction::SetStatus(s) => TableActionV::SetStatus(s@),
        TableAction::ClearStatus => TableActionV::ClearStatus,
        TableAction::SaveCache => TableActionV::SaveCache,
        TableAction::OpenDetail(p) => TableActionV::OpenDetail(p@),
        TableAction::OpenRaw(i) => TableActionV::OpenRaw(i),
        TableAction::Refresh(i) => TableActionV::Refresh(i),
        TableAction::RefreshAll => TableActionV::RefreshAll,
        TableAction::OpenPlugins => TableActionV::OpenPlugins,
        TableAction::StartWork(i) => TableActionV::StartWork(i),
        TableAction::OpenInBrowser(k) => TableActionV::OpenInBrowser(k@),
        TableAction::Noop => TableActionV::Noop,
    }
}

/// The values of a list of actions.
pub open spec fn actions_view(v: Seq<TableAction>) -> Seq<TableActionV> {
    v.map_values(|a: TableAction| action_view(a))
}

} // verus!
