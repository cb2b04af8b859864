[package]
name = "marksmen"
version = "0.1.0"
edition = "2021"
publish = false

[dependencies]
regex = "=1.13.1"
anyhow = "=1.0.104"
serde = { version = "=1.0.229", features = ["derive"] }
serde_yaml = "=0.9.34"
serde_json = "=1.0.154"
rustc-hash = "=2.1.3"
pulldown-cmark = "=0.13.6"
sha2 = "=0.10.9"
chrono = "=0.4.45"
uuid = { version = "=1.29.0", features = ["v4"] }
quick-xml = "=0.42.0"
latex2mathml = "=0.2.3"
csv = "*"
