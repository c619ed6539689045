//! The commands that plugins and key bindings send to the screens.

use vstd::prelude::*;
use crate::ui::shared::pbi_table::columns::CustomColumn;

verus! {

/// A command for the screens, sent by a key binding or a plugin script.
pub enum JiraCommand {
    GoUp,
    GoDown,
    GoLeft,
    GoRight,
    OpenPbiDetails,
    Quit,
    Refresh,
    RefreshAll,
    OpenInBrowser,
    OpenPluginList,
    OpenRawPbiJson,
    StartWork,
    OpenFilter,
    EditPluginSelected,
    Back,
    /// Assign the issue (first) to the account (second).
    AssignPbi(String, String),
    /// Move the issue (first) to the status (second).
    ChangePbiStatus(String, String),
    /// Show a message.
    Print(String),
    /// Ask for a confirmation.
    Confirmation(String),
    /// Add a plugin column to the table.
    AddColumn(CustomColumn),
}

} // verus!
