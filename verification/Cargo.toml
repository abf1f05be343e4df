[package]
name = "volca_manager"
version = "0.1.0"
edition = "2021"
publish = false

[dependencies]
anyhow = "1"
chrono = { version = "0.4", default-features = false, features = ["clock"] }
hound = "3.5"
midir = "0.10"
rubato = "0.16"
slint = { version = "1", default-features = false, features = ["std", "compat-1-2"] }
tracing = { version = "0.1", default-features = false, features = ["std"] }
tracing-subscriber = { version = "0.3", default-features = false, features = ["fmt"] }
