[package]
name = "jira"
version = "0.1.0"
edition = "2021"
publish = false

[dependencies]
chrono = "0.4"
json = "0.12"
regex = "1"
clap = "2.34"
ratatui = "0.29"
crossterm = "0.28"
mlua = { version = "0.10", features = ["lua54", "vendored"] }
base64 = "0.13"
home = "0.5"
directories-next = "2"
rpassword = "7"
include_dir = "0.7"
