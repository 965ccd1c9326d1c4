[package]
name = "skills_tui"
version = "0.1.0"
edition = "2021"
publish = false

[dependencies]
anyhow = "=1.0.104"
crossterm = "=0.29.0"
ratatui = { version = "=0.30.2", features = ["unstable-rendered-line-info"] }
tui-markdown = "=0.3.13"
unicode-segmentation = "=1.13.3"
unicode-width = "=0.2.3"
