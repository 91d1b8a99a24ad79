[package]
name = "kanban_tui"
version = "0.1.0"
edition = "2021"
publish = false

[dependencies]
rusqlite = { version = "*", features = ["bundled"] }
clap = { version = "4", features = ["derive"] }
crossterm = "0.25"
tui = "0.19"
tui-textarea = "0.2"
