[package]
name = "cumulus_host"
version = "0.1.0"
edition = "2021"
publish = false

[dependencies]
colored = "*"
serde_json = "*"
rlua = "*"
reqwest = { version = "*", default-features = false, features = ["json"] }
tokio = { version = "*", default-features = false, features = ["rt-multi-thread", "macros"] }
