[package]
name = "timeline_state"
version = "0.1.0"
edition = "2021"
publish = false

[dependencies]
eyeball-im = "0.5"
itertools = "0.13"
ruma = { version = "0.12", features = ["events"] }
serde = { version = "1", features = ["derive"] }
serde_json = "1"
tracing = "0.1"

[dev-dependencies]
futures-util = "0.3"
