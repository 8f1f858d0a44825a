[package]
name = "sticky"
version = "0.1.0"
edition = "2021"
publish = false

[dependencies]
evalexpr = "11"
gtk4 = "0.9"
libadwaita = "0.7"
glib = "0.20"
ashpd = "0.9"
ksni = "0.2"
tokio = { version = "1", features = ["rt-multi-thread"] }
reqwest = { version = "0.12", features = ["json", "multipart"] }
rusqlite = "0.31"
serde = { version = "1", features = ["derive"] }
serde_json = "1"
once_cell = "1"
log = "0.4"
env_logger = "0.11"
