[package]
name = "editor_core"
version = "0.1.0"
edition = "2021"
publish = false

[dependencies]
ropey = "1.6"
unicode-segmentation = "1"
unicode-width = "0.1"
ratatui = "0.26"
crossterm = "0.27"
tree-sitter = "0.22"
tree-sitter-rust = "0.21"
clap = { version = "4", features = ["derive"] }
color-eyre = "0.6"
tokio = { version = "1", features = ["full"] }
tracing = "0.1"
tracing-error = "0.2"
tracing-subscriber = { version = "0.3", features = ["env-filter"] }
better-panic = "0.3"
