[package]
name = "idk"
version = "0.1.0"
edition = "2021"
publish = false

[dependencies]
id3 = { version = "=1.17.2", default-features = false }
regex = "=1.13.1"
serde = { version = "=1.0.229", features = ["derive"] }
serde_json = { version = "=1.0.154", features = ["preserve_order"] }
serde_yaml_ng = "=0.10.0"
schemars = "=1.2.3"
jsonschema = { version = "=0.60.2", default-features = false }
clap = { version = "=4.6.7", features = ["derive"] }
tokio = { version = "=1.54.1", features = ["full"] }
futures-util = "=0.3.34"
indicatif = "=0.18.6"
glob = "=0.3.4"
walkdir = "=2.5.0"

[dev-dependencies]
tempfile = "=3.27.0"
