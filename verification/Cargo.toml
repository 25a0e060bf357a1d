[package]
name = "framework"
version = "0.1.0"
edition = "2021"
publish = false

[dependencies]
async-std = { version = "1", features = ["attributes"] }
async-trait = "0.1"
proc-macro2 = "1"
quote = "1"
regex = "1"
serde = { version = "1", features = ["derive"] }
serde_json = "1"
syn = { version = "1", features = ["full"] }
tide = "0.16"
uptime_lib = "*"
