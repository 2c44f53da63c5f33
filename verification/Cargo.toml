[package]
name = "rusk"
version = "0.9.7"
edition = "2021"
publish = false

[dependencies]
android_logger = { version = "0.13", default-features = false }
anyhow = "1"
backtrace = "0.3"
clap = { version = "4", features = ["derive"] }
dirs = "5"
j4rs = "0.18"
jni = "0.21"
log = "0.4"
log-panics = { version = "2", features = ["with-backtrace"] }
quick-xml = "=0.31.0"
reqwest = { version = "0.11", default-features = false, features = ["blocking", "rustls-tls"] }
rusqlite = { version = "0.31", features = ["bundled"] }
rustls = { version = "0.23", default-features = false, features = ["ring", "std"] }
rustls-platform-verifier = "0.5"
serde = { version = "1", features = ["derive"] }
sha1 = "=0.10.7"
sha2 = "=0.10.9"
thiserror = "1"
toml = "0.8"
walkdir = "2"
which = "6"
zip = { version = "0.6", default-features = false, features = ["deflate"] }
