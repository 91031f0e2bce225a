[package]
name = "pool_miner"
version = "0.1.0"
edition = "2021"
publish = false

[dependencies]
bs58 = "*"
colored = "*"
core_affinity = "*"
drillx = "*"
futures = "*"
hex = "*"
num_cpus = "*"
reqwest = { version = "*", default-features = false, features = ["json"] }
serde = { version = "*", features = ["derive"] }
serde_json = "*"
solana-program = "*"
solana-sdk = "*"
tokio = { version = "*", features = ["macros", "rt-multi-thread"] }
tokio-tungstenite = "*"
