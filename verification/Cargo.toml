[package]
name = "mc_exporter"
version = "0.1.0"
edition = "2021"
publish = false

[dependencies]
serde = { version = "=1.0.229", features = ["derive"] }
serde_yaml = "=0.9.34"
structopt = "=0.3.26"
tokio = { version = "=1.53.2", features = ["full"] }
warp = { version = "=0.4.3", features = ["server"] }
reqwest = { version = "=0.13.5", default-features = false, features = ["rustls"] }
walkdir = "=2.5.0"
rcon = { version = "=0.6.0", features = ["rt-tokio"] }
eyre = "=0.6.14"
