[package]
name = "jsonmap"
version = "0.1.0"
edition = "2021"
publish = false

[dependencies]
serde_json = "=1.0.151"
serde_yaml = "=0.9.34"
toml = "=1.1.6"
quick-xml = { version = "=0.42.0", features = ["serialize"] }
csv = "=1.4.0"
jsonschema = { version = "=0.58.5", default-features = false }
jsonpath_lib = "=0.3.0"
jaq-core = "=2.2.1"
jaq-std = "=2.1.2"
jaq-json = { version = "=1.1.3", features = ["serde_json"] }
jsonwebtoken = "=11.1.0"
base64 = "=0.22.1"
