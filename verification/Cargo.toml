[package]
name = "commit_ingest"
version = "0.1.0"
edition = "2021"
publish = false

[dependencies]
diesel = { version = "2.2", features = ["postgres"] }
dotenv = "0.15"
reqwest = { version = "0.12", default-features = false, features = ["blocking", "json", "rustls-tls"] }
serde = { version = "1", features = ["derive"] }
serde_json = "1"
slog = "2"
slog-term = "2"
url = "2"
