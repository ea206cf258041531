[package]
name = "r_lsp"
version = "0.1.0"
edition = "2021"
publish = false

[dependencies]
regex = "1"
tree-sitter = "0.24"
tree-sitter-r = "1.1"
tower-lsp = "0.20"
tokio = { version = "1", features = ["sync", "rt", "macros"] }
futures = "0.3"
once_cell = "1"
anyhow = "1"
url = "2"
tracing = "0.1"
log = "0.4"
