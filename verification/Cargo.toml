[package]
name = "backstitch"
version = "0.1.0"
edition = "2021"
publish = false

[dependencies]
automerge = "*"
axum = { version = "*", default-features = false, features = ["http1", "query", "tokio"] }
blake3 = { version = "1", features = ["pure"] }
chrono = { version = "0.4", default-features = false, features = ["clock", "std", "unstable-locales"] }
fjall = { version = "*", default-features = false }
futures = "0.3"
html-escape = "0.2"
indexmap = "2"
jwalk = "*"
keyring = { version = "3", default-features = false }
notify-debouncer-full = "*"
open = "5"
openidconnect = { version = "4", default-features = false, features = ["reqwest"] }
regex = "1"
reqwest = { version = "0.12", default-features = false, features = ["json", "rustls-tls-manual-roots"] }
samod = { version = "*", default-features = false, features = ["tokio"] }
secrecy = "0.10"
semver = "1"
serde = { version = "1", features = ["derive"] }
serde_json = "1"
sys-locale = "*"
tokio = { version = "1", features = ["full"] }
tokio-tungstenite = { version = "*", default-features = false, features = ["connect"] }
tokio-util = "0.7"
toml = "*"
url = "2"
uuid = { version = "1", features = ["v4"] }
wincode = { version = "*", features = ["derive"] }
