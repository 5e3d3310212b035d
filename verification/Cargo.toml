[package]
name = "chunkstream"
version = "0.1.0"
edition = "2021"
publish = false

[dependencies]
crossbeam-channel = "=0.5.17"
uuid = { version = "=1.27.0", features = ["v4"] }
similar = "=3.2.0"
chrono = "=0.4.45"
serde = { version = "=1.0.229", features = ["derive"] }
serde_json = "=1.0.151"
hound = "=3.5.1"
tokio = { version = "=1.53.2", features = ["rt-multi-thread", "macros", "time", "sync"] }
warp = { version = "=0.4.3", features = ["server", "websocket"] }
futures-util = "=0.3.34"
log = "=0.4.34"
env_logger = "=0.11.11"
dotenv = "=0.15.0"
thread-priority = "=3.1.1"
bytes = "=1.12.1"
