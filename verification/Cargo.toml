[package]
name = "imputator"
version = "0.1.0"
edition = "2021"
publish = false

[dependencies]
csv = "1"
reqwest = { version = "0.12", features = ["json", "cookies"] }
rusqlite = "*"
serde = { version = "1", features = ["derive"] }
serde_derive = "1"
serde_json = "1"
tokio = { version = "1", features = ["macros", "rt-multi-thread"] }
