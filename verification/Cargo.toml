[package]
name = "memgraph"
version = "0.1.0"
edition = "2021"
publish = false

[dependencies]
clap = { version = "=4.6.7", features = ["derive"] }
ctrlc = "=3.5.2"
env_logger = "=0.11.11"
futures-util = "=0.3.34"
inferno = { version = "=0.12.8", default-features = false }
log = "=0.4.34"
reqwest = { version = "=0.13.5", default-features = false, features = ["json"] }
serde = { version = "=1.0.229", features = ["derive"] }
serde_json = { version = "=1.0.151", features = ["unbounded_depth"] }
serde_stacker = "=0.1.14"
subprocess = "=1.2.1"
tokio = { version = "=1.53.2", features = ["macros", "rt-multi-thread"] }
tokio-tungstenite = "=0.30.0"
