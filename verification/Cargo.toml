[package]
name = "galaxyofdreams"
version = "0.1.0"
edition = "2021"
publish = false

[dependencies]
minidom = "=0.19.0"
chrono = "=0.4.45"
chronoutil = "=0.2.7"
tokio = { version = "*", features = ["full"] }
futures = "*"
reqwest = { version = "*", default-features = false, features = ["rustls-tls"] }
serde = { version = "*", features = ["derive"] }
serde_json = "*"
envy = "*"
log = "*"
warp = { version = "=0.4.3", features = ["server"] }
bytes = "*"
http = "*"
