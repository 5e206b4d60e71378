[package]
name = "otunnel"
version = "0.1.0"
edition = "2021"
publish = false

[dependencies]
anyhow = "=1.0.104"
axum = "=0.8.9"
base64 = "=0.22.1"
bytes = "=1.12.1"
clap = { version = "=4.6.7", features = ["derive", "env"] }
csv = "=1.4.0"
hmac = "=0.13.0"
http = "=1.5.0"
httpdate = "=1.0.3"
humantime = "=2.4.0"
indexmap = "=2.14.2"
ipnet = "=2.12.2"
mime = "=0.3.17"
percent-encoding = "=2.3.2"
rand = "=0.10.3"
regex = "=1.13.1"
reqwest = "=0.13.5"
serde = { version = "=1.0.229", features = ["derive"] }
serde-saphyr = "=2.0.0"
serde_json = { version = "=1.0.154", features = ["raw_value"] }
sha2 = "=0.11.1"
shell-words = "=1.1.1"
tempfile = "=3.27.0"
time = { version = "=0.3.55", features = ["formatting", "parsing"] }
tokio = { version = "=1.54.1", features = ["full"] }
tracing = "=0.1.44"
tracing-subscriber = { version = "=0.3.23", features = ["env-filter", "json"] }
url = "=2.5.8"
uuid = { version = "=1.29.0", features = ["v4"] }
which = "=8.0.6"
