[package]
name = "texlab"
version = "0.1.0"
edition = "2021"
publish = false

[dependencies]
anyhow = "1"
cancellation = "0.1"
crossbeam-channel = "0.5"
futures = "0.3"
itertools = "*"
log = "0.4"
lsp-server = "*"
lsp-types = "*"
once_cell = "1"
regex = "1"
rowan = "*"
serde = { version = "1", features = ["derive"] }
serde_json = "1"
threadpool = "1"
tokio = { version = "1", features = ["fs", "rt"] }
