[package]
name = "minha_princesa_animes"
version = "0.1.0"
edition = "2021"
publish = false

[dependencies]
regex = "1"
scraper = "*"
urlencoding = "2"
serde_json = "1"
serde = { version = "1", features = ["derive"] }
base64 = "0.22"
reqwest = { version = "0.12", default-features = false, features = ["rustls-tls", "cookies", "stream"] }
tokio = { version = "1", features = ["rt-multi-thread", "macros", "process", "fs", "time", "sync", "io-util"] }
futures-util = "0.3"
uuid = { version = "1", features = ["v4"] }
dirs = "*"
rusqlite = { version = "0.32", features = ["bundled"] }
zip = { version = "2", default-features = false, features = ["deflate"] }
thiserror = "*"
