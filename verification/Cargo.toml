[package]
name = "taskmaster"
version = "0.1.0"
edition = "2021"
publish = false

[dependencies]
chrono = "=0.4.45"
rust-ini = "=0.21.3"
signal-hook = "=0.4.5"
thiserror = "=2.0.21"
tokio = { version = "=1.54.1", features = ["full"] }
dxr = { version = "=0.9.0", features = ["derive"] }
dxr_client = { version = "=0.9.0", default-features = false, features = ["reqwest"] }
dxr_server = { version = "=0.9.0", features = ["axum"] }
iso8601 = "=0.6.6"
