[package]
name = "openmacro_lib"
version = "0.1.0"
edition = "2021"
publish = false

[dependencies]
aho-corasick = "1"
chrono = "0.4"
serde = { version = "1", features = ["derive"] }
serde_json = "1"
serde_yaml = "0.9"
dirs = "*"
tempfile = "3"
rtrb = "0.3"
notify = "*"
tokio = { version = "1", features = ["rt", "sync", "time", "process", "macros"] }
git2 = { version = "*", default-features = false }
tracing = "0.1"
