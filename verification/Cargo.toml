[package]
name = "smesh_authority"
version = "0.1.0"
edition = "2021"
publish = false

[dependencies]
a2a-lf = "*"
async-trait = "0.1"
base64 = "0.22"
chrono = { version = "0.4", features = ["serde"] }
deadpool-postgres = "0.14"
futures = "0.3"
hmac = "0.12"
httpdate = "1"
rand = "0.9"
reqwest = { version = "0.13", default-features = false, features = ["rustls-no-provider", "stream"] }
rustix = { version = "1", features = ["fs", "process"] }
rustls = { version = "0.23", default-features = false, features = ["std", "tls12"] }
rustls-native-certs = "0.8"
serde = { version = "1", features = ["derive"] }
serde_json = "1"
sha2 = "0.10"
subtle = "2"
thiserror = "2"
tokio = { version = "1", features = ["net", "rt", "sync", "time", "macros"] }
tokio-postgres = "0.7"
tokio-postgres-rustls = "0.13"
toml = "*"
url = "2"
zeroize = "1"
