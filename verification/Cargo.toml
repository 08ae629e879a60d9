[package]
name = "moneyd"
version = "0.1.0"
edition = "2021"
publish = false

[dependencies]
quick-xml = "*"
sha2 = "*"
serde = { version = "*", features = ["derive"] }
serde_json = "*"
toml = "*"
reqwest = { version = "*", default-features = false, features = ["json"] }
tokio = { version = "*", features = ["rt-multi-thread", "macros"] }
clap = { version = "*", features = ["derive"] }
cursive = "*"
dotenv = "*"
csv = "*"
