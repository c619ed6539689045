//! The sprint screen.

pub mod app;
pub mod footer;
pub mod progress_block;
pub mod sprint_goal;
