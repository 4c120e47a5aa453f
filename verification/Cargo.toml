[package]
name = "paradox_server"
version = "0.1.0"
edition = "2021"
publish = false

[dependencies]
percent-encoding = "2"
base64 = "0.13"
form_urlencoded = "1"
regex = "1"
latin1str = "*"
assembly-xml = "*"
assembly-fdb = "*"
assembly-core = "*"
graphql-parser = "0.4"
serde = { version = "1", features = ["derive"] }
serde_json = "1"
serde_yaml = "0.9"
toml = "0.7"
clap = { version = "4", features = ["derive"] }
hyper = { version = "0.14", features = ["full"] }
http = "0.2"
http-body = "0.4"
tower = { version = "0.4", features = ["full"] }
tower-http = { version = "0.4", features = ["fs", "cors", "trace", "auth"] }
tokio = { version = "1", features = ["full"] }
futures-util = "0.3"
pin-project = "1"
tracing = "0.1"
pretty_env_logger = "0.4"
color-eyre = "0.6"
rusqlite = { version = "0.29", features = ["bundled"] }
notify = "6"
openapiv3 = "1"
mapr = "0.8"
once_cell = "1"
