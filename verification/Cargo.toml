[package]
name = "agent_cli_rust"
version = "0.1.0"
edition = "2021"
publish = false

[dependencies]
chrono = "0.4"
meval = "0.2"
reqwest = { version = "0.12", default-features = false, features = ["json", "rustls-tls"] }
rustyline = "14"
serde = { version = "1", features = ["derive"] }
serde_json = "1"
serde_yaml = "0.9"
tokio = { version = "1", features = ["macros", "rt-multi-thread"] }
