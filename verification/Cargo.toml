[package]
name = "batch_fetch"
version = "0.1.0"
edition = "2021"
publish = false

[dependencies]
actix-web = { version = "4", default-features = false, features = ["macros"] }
deadpool-postgres = "*"
reqwest = { version = "*", default-features = false }
serde = { version = "1", features = ["derive"] }
tokio = { version = "1", features = ["sync", "rt-multi-thread", "macros"] }
tokio-postgres = "*"
