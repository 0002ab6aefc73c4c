[package]
name = "simbus"
version = "0.1.0"
edition = "2021"
publish = false

[dependencies]
anyhow = "1"
async-opcua = { version = "*", features = ["server"] }
axum = "0.8"
bacnet-objects = "*"
bacnet-server = "*"
bacnet-types = "*"
clap = { version = "4", features = ["derive", "env"] }
futures-util = "0.3"
http = "1"
parking_lot = "0.12"
rand = "0.9"
rand_distr = "0.5"
reqwest = { version = "0.12", default-features = false, features = ["json", "rustls-tls"] }
rustls = { version = "0.23", default-features = false, features = ["ring", "std", "tls12", "logging"] }
rustls-pki-types = "1"
serde = { version = "1", features = ["derive"] }
serde_json = "1"
serde_yaml = "0.9"
thiserror = "2"
tokio = { version = "1", features = ["full"] }
tokio-modbus = { version = "0.17", default-features = false, features = ["tcp-server"] }
tokio-rustls = { version = "0.26", default-features = false, features = ["ring", "logging", "tls12"] }
tokio-stream = { version = "0.1", features = ["sync"] }
tower-http = { version = "0.6", features = ["cors", "timeout", "trace"] }
tracing = "0.1"
tracing-subscriber = { version = "0.3", features = ["env-filter"] }
utoipa = { version = "5", features = ["axum_extras"] }
utoipa-swagger-ui = { version = "9", features = ["axum", "vendored"] }
