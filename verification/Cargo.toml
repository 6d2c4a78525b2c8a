[package]
name = "rf-desktop"
version = "3.2.6"
edition = "2021"
publish = false

[dependencies]
anyhow = "=1.0.104"
directories = "=5.0.1"
fs2 = "=0.4.3"
num_cpus = "=1.17.0"
regex = "=1.13.1"
reqwest = { version = "=0.12.28", default-features = false, features = ["json", "rustls-tls"] }
serde = { version = "=1.0.229", features = ["derive"] }
serde_json = "=1.0.154"
tokio = { version = "=1.54.1", features = ["rt", "sync", "time"] }
urlencoding = "=2.1.3"
warp = { version = "=0.3.7", default-features = false }
zip = { version = "=2.6.1", default-features = false, features = ["deflate"] }
