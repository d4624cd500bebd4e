[package]
name = "telegrambot"
version = "0.1.0"
edition = "2021"
publish = false

[dependencies]
rand = "=0.8.8"
diesel = { version = "=2.3.14", features = ["sqlite", "r2d2", "returning_clauses_for_sqlite_3_35"] }
libsqlite3-sys = { version = "=0.38.2", features = ["bundled"] }
r2d2 = "=0.8.10"
clap = { version = "=4.6.7", features = ["derive"] }
serde = { version = "=1.0.229", features = ["derive"] }
serde_json = "=1.0.151"
anyhow = "=1.0.104"
reqwest = { version = "=0.12.28", default-features = false, features = ["blocking", "json"] }
