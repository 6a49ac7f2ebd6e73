[package]
name = "lexicon_reaper"
version = "0.1.0"
edition = "2021"
publish = false

[dependencies]
rand = "0.8"
rand_chacha = "0.3"
serde = { version = "1", features = ["derive"] }
serde_json = "1"
ratatui = "0.29"
crossterm = "0.28"
tui-big-text = "0.7"
ureq = "2"
dirs = "5"
color-eyre = "0.6"
