[package]
name = "httpc"
version = "0.1.0"
edition = "2021"
publish = false

[dependencies]
url = "*"
jsonxf = "*"
reqwest = { version = "*", default-features = false }
tokio = { version = "*", features = ["macros", "rt-multi-thread"] }
clap = { version = "*", features = ["derive"] }
colored = "*"
anyhow = "*"

[dev-dependencies]
serde_json = "*"
