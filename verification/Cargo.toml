[package]
name = "turbine"
version = "0.1.0"
edition = "2021"
publish = false

[dependencies]
forwarded-header-value = "*"
base64 = "*"
ring = "*"
serde = { version = "*", features = ["derive"] }
serde_json = "*"
toml = "*"
tokio = { version = "*", features = ["full"] }
axum = "*"
tower = { version = "*", features = ["util"] }
