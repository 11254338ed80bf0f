[package]
name = "nanoproxy"
version = "0.1.0"
edition = "2021"
publish = false

[dependencies]
actix = "*"
actix-codec = "*"
actix-http = "*"
actix-web = "=4.15.0"
actix-web-actors = "*"
anyhow = "1"
awc = "*"
config = "*"
futures = "0.3"
if-addrs = "*"
serde = { version = "1", features = ["derive"] }
simple-mdns = { version = "=0.7.0", features = ["sync"] }
tera = "1"
thiserror = "1"
tokio = { version = "1", features = ["macros", "rt", "sync"] }
tracing = "0.1"
tracing-subscriber = { version = "0.3", features = ["env-filter"] }
