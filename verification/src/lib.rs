//! Verified core of a terminal client for Jira: configuration and alias
//! handling, list filters and their JQL, issue and sprint models, the sprint
//! cache format, keymaps, the service container and the view logic of the
//! terminal screens.

pub mod api;
pub mod assign;
pub mod commands;
pub mod comments;
pub mod config;
pub mod dates;
pub mod fields;
pub mod ioc;
pub mod json;
pub mod keymaps;
pub mod lists;
pub mod metadata;
pub mod pbi;
pub mod plugins;
pub mod raw;
pub mod seq_util;
pub mod sprint;
pub mod subcommands;
pub mod text;
pub mod transitions;
pub mod ui;
pub mod user;
