[package]
name = "quickdiff"
version = "0.1.0"
edition = "2021"
publish = false

[dependencies]
similar = { version = "=2.7.0", features = ["unicode"] }
nucleo-matcher = "=0.3.1"
tree-sitter = "=0.27.1"
tree-sitter-highlight = "=0.27.1"
tree-sitter-rust = "=0.24.2"
tree-sitter-typescript = "=0.23.2"
tree-sitter-go = "=0.25.0"
tree-sitter-python = "=0.25.0"
tree-sitter-json = "=0.24.8"
tree-sitter-yaml = "=0.7.2"
tree-sitter-bash = "=0.25.1"
streaming-iterator = "=0.1.9"
serde = { version = "=1.0.229", features = ["derive"] }
serde_json = "=1.0.154"
toml = "=1.1.8"
thiserror = "=2.0.21"
anyhow = "=1.0.104"
git2 = { version = "=0.21.0", default-features = false }
directories = "=6.0.0"
notify = "=8.2.1"
notify-debouncer-mini = "=0.7.0"
crossterm = "0.28"
