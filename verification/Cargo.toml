[package]
name = "home_server"
version = "0.1.0"
edition = "2021"
publish = false

[dependencies]
unicode-normalization = "=0.1.26"
uuid = { version = "=1.29.0", features = ["v4"] }
chrono = { version = "=0.4.45", features = ["clock", "serde"] }
sha2 = "=0.10.9"
serde = { version = "=1.0.229", features = ["derive"] }
serde_json = "=1.0.154"
toml = "=1.1.8"
thiserror = "=2.0.21"
anyhow = "=1.0.104"
log = "=0.4.35"
clap = { version = "=4.6.7", features = ["derive"] }
tokio = { version = "=1.54.1", features = ["full"] }
axum = "=0.8.9"
tower = { version = "=0.5.3", features = ["util"] }
tower-http = { version = "=0.7.1", features = ["fs"] }
futures = "=0.3.34"
sqlx = { version = "=0.8.6", default-features = false, features = ["sqlite", "runtime-tokio", "migrate", "uuid", "chrono"] }
lofty = "=0.25.5"
walkdir = "=2.5.0"
rayon = "=1.12.0"
reqwest = { version = "=0.12.28", default-features = false }
indicatif = "=0.18.6"
sevenz-rust2 = { version = "=0.24.2", default-features = false, features = ["compress"] }
askama = "=0.16.1"
