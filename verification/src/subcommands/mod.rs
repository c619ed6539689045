//! The command-line subcommands: what each one decides, apart from the
//! argument parsing and printing around it.

pub mod config;
