[package]
name = "shrimp"
version = "0.1.0"
edition = "2021"
publish = false

[dependencies]
serde = { version = "1", features = ["derive"] }
serde_json = "1"
regex = "1"
chrono = "0.4"
sha2 = "0.10"
toml = "0.8"
anyhow = "1"
thiserror = "2"
async-trait = "0.1"
futures-util = "0.3"
tokio = { version = "1", features = ["full"] }
reqwest = { version = "0.12", default-features = false, features = ["json", "stream"] }
crossbeam-channel = "0.5"
crossterm = "0.28"
ratatui = "0.29"
clap = { version = "4", features = ["derive", "env"] }
once_cell = "1"
ignore = "0.4"
redb = "3"
tree-sitter = "0.25"
tree-sitter-highlight = "0.25"
tree-sitter-rust = "0.24"
tree-sitter-python = "0.23"
tree-sitter-javascript = "0.23"
tree-sitter-typescript = "0.23"
tree-sitter-go = "0.23"
