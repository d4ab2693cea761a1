[package]
name = "remap_core"
version = "0.1.0"
edition = "2021"
publish = false

[dependencies]
metrics = "=0.24.6"
tui = { version = "=0.19.0", default-features = false, features = ["termion"] }
termion = "=4.0.6"
chrono = "=0.4.45"
tokio = { version = "=1.53.2", features = ["rt", "time", "macros"] }
async-stream = "=0.3.6"
async-graphql = "=7.2.1"
lazy_static = "=1.5.1"
futures = "=0.3.34"
