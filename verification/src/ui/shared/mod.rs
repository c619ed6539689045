//! Parts shared by the issue list and the sprint screens.

pub mod editor;
pub mod footer;
pub mod pbi_table;
