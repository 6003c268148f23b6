[package]
name = "graph_gateway"
version = "0.1.0"
edition = "2021"
publish = false

[dependencies]
anyhow = "1"
ascii = "1"
async-stream = "0.3"
async-trait = "0.1"
case = "1"
chrono = "0.4"
clap = { version = "4", features = ["derive", "env"] }
dynomite = "0.10"
futures = "0.3"
futures-util = "0.3"
http = "1"
indexmap = "2"
itertools = "*"
rusoto_core = "0.45"
rusoto_dynamodb = "0.45"
serde = { version = "1", features = ["derive"] }
serde_json = "1"
tempfile = "3"
thiserror = "1"
tokio = { version = "1", features = ["sync", "rt"] }
toml = "*"
tracing = "0.1"
ulid = "1"
url = "2"
