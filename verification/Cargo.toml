[package]
name = "prx_email"
version = "0.1.0"
edition = "2021"
publish = false

[dependencies]
base64 = "=0.22.1"
sha2 = "=0.10.9"
mail-parser = "=0.11.9"
serde = { version = "=1.0.229", features = ["derive"] }
serde_json = "=1.0.154"
thiserror = "=2.0.21"
rusqlite = { version = "=0.41.1", features = ["bundled"] }
lettre = { version = "=0.11.23", default-features = false, features = ["builder", "smtp-transport", "rustls-tls"] }
imap = { version = "=2.4.1", default-features = false }
rustls-connector = "=0.23.9"
