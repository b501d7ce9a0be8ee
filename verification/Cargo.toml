[package]
name = "dated_diary"
version = "0.1.0"
edition = "2021"
publish = false

[dependencies]
chrono = "0.4"
pad = "0.1"
confy = "0.5"
crossterm = "0.25"
textwrap = "0.16"
tui = "0.19"
serde = "1"
serde_derive = "1"
