[package]
name = "invar"
version = "0.1.0"
edition = "2021"
publish = false

[dependencies]
quick-xml = "0.37"
chrono = "0.4"
serde = { version = "1", features = ["derive"] }
serde_json = "1"
keyring = "3"
reqwest = { version = "0.12", default-features = false, features = ["json", "rustls-tls"] }
tokio = { version = "1", features = ["macros", "rt-multi-thread", "sync", "signal", "time"] }
rust_xlsxwriter = { version = "*", features = ["chrono"] }
