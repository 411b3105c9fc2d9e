[package]
name = "bridge_indexer"
version = "0.1.0"
edition = "2021"
publish = false

[dependencies]
ethers-core = "=2.0.14"
ethers-providers = { version = "2", default-features = false, features = ["ws", "rustls"] }
ethers-signers = { version = "2", default-features = false }
ethers-middleware = { version = "2", default-features = false }
ethers-contract = { version = "2", default-features = false, features = ["providers"] }
hex = "0.4"
uuid = { version = "1", features = ["v4"] }
chrono = "0.4"
dotenv = "0.15"
sqlx = { version = "0.8", default-features = false, features = ["postgres", "runtime-tokio"] }
tokio = { version = "1", features = ["rt-multi-thread", "macros", "time", "signal"] }
