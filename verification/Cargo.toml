[package]
name = "mighty_grpc"
version = "0.1.0"
edition = "2021"
publish = false

[dependencies]
serde_json = "1"
serde = { version = "1", features = ["derive"] }
tonic = "0.11"
prost = "0.12"
tokio = { version = "1", features = ["macros", "rt-multi-thread", "signal"] }
reqwest = { version = "0.12", default-features = false }
async-trait = "0.1"
log = "0.4"
env_logger = "0.11"
config = { version = "0.14", default-features = false, features = ["toml"] }
anyhow = "1"
actix-web = { version = "4", default-features = false }
futures = "0.3"
cfg-if = "1"
