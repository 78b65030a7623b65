[package]
name = "gbf_core"
version = "0.1.0"
edition = "2021"
publish = false

[dependencies]
petgraph = "*"
tokio = { version = "*", features = ["process", "rt", "macros"] }
