[package]
name = "diagram_model"
version = "0.1.0"
edition = "2021"
publish = false

[dependencies]
clang = { version = "2", features = ["runtime", "clang_10_0"] }
clap = { version = "4", features = ["derive"] }
env_logger = "0.11"
log = "0.4"
indexmap = "2"
serde_json = "1"
