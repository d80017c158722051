[package]
name = "joshuto_ui"
version = "0.1.0"
edition = "2021"
publish = false

[dependencies]
unicode-width = "*"
ncurses = "=5.101.0"
toml = "=0.4.10"
tree_magic = "=0.2.3"
