[package]
name = "tui_markdown"
version = "0.3.7"
edition = "2021"
publish = false

[dependencies]
ansi-to-tui = "*"
pulldown-cmark = { version = "0.13", default-features = false }
ratatui-core = "*"
syntect = { version = "5", default-features = false, features = ["default-fancy"] }
unicode-width = "*"
