[package]
name = "doit"
version = "0.1.0"
edition = "2021"
publish = false

[dependencies]
chrono = { version = "=0.4.45", features = ["serde"] }
clap = { version = "=4.6.7", features = ["derive"] }
diesel = { version = "=2.3.13", features = ["sqlite", "chrono"] }
libsqlite3-sys = { version = "=0.38.2", features = ["bundled"] }
serde = { version = "=1.0.229", features = ["derive"] }
