[package]
name = "latex_render"
version = "0.1.0"
edition = "2021"
publish = false

[dependencies]
sha2 = "=0.10.9"
base64 = "=0.22.1"
quick-xml = "=0.42.0"
svgtypes = "=0.16.1"
resvg = "=0.49.0"
serde = { version = "=1.0.229", features = ["derive"] }
serde_json = { version = "=1.0.154", features = ["raw_value"] }
tokio = { version = "=1.54.1", features = ["full"] }
