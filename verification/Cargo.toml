[package]
name = "todo_events"
version = "0.1.0"
edition = "2021"
publish = false

[dependencies]
uuid = { version = "1", features = ["v4"] }
mongodb = { version = "2", default-features = false, features = ["sync"] }
serde = "1"
serde_derive = "1"
