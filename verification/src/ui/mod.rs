//! The view logic of the terminal screens: what each widget holds and
//! shows, and how the screens react to keys. Drawing happens around it.

pub mod components;
pub mod keys;
pub mod pbi_detail;
pub mod pbi_list;
pub mod plugin_list;
pub mod shared;
pub mod sprint_list;
