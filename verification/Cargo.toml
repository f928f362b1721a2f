[package]
name = "gateway"
version = "0.8.2"
edition = "2021"
publish = false

[dependencies]
regex = "=1.13.1"
http = "=1.5.0"
url = "=2.5.8"
percent-encoding = "=2.3.2"
glob = "=0.3.4"
serde = { version = "=1.0.229", features = ["derive"] }
serde_json = "=1.0.154"
dhttp-home = { version = "=0.3.0", default-features = false }
dhttp-identity = "=0.2.0"
h3x = { version = "=0.6.2", default-features = false, features = ["dquic"] }
misc-conf = "=0.1.2"
bytes = "=1.12.1"
tokio = { version = "=1.54.1", features = ["macros", "rt", "sync", "time"] }
tokio-util = { version = "=0.7.20", features = ["rt"] }
futures = "=0.3.34"
tracing = "=0.1.44"
