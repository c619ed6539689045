//! Widgets shared by the screens.

pub mod progress;
pub mod ui_boxed_title;
pub mod ui_footer;
pub mod ui_sprint_progress;
pub mod ui_table;
pub mod ui_title;

use vstd::prelude::*;

verus! {

/// The building blocks (titles, labelled texts, boxed titles) that the
/// screens draw with; drawing them is done by the terminal front end.
pub struct UiComponent {}

} // verus!
