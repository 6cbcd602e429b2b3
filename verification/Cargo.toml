[package]
name = "falcon"
version = "0.1.0"
edition = "2021"
publish = false

[dependencies]
uuid = { version = "*", features = ["v7"] }
url = "*"
reqwest = { version = "*", default-features = false, features = ["cookies"] }
serde = { version = "*", features = ["derive"] }
toml = "*"
directories = "*"
tokio = { version = "*", features = ["rt-multi-thread", "macros"] }
