[package]
name = "ommatidia"
version = "0.1.0"
edition = "2021"
publish = false

[dependencies]
async-broadcast = "*"
bollard = "0.14"
bytes = "1"
futures = "0.3"
glob = "0.3"
hyper = { version = "0.14", features = ["client", "http1"] }
portpicker = "0.1"
serde = { version = "1", features = ["derive"] }
serde_json = "1"
tokio = { version = "1", features = ["full"] }
toml = "*"
tower = { version = "0.4", features = ["util"] }
