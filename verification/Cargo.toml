[package]
name = "poem"
version = "0.1.0"
edition = "2021"
publish = false

[dependencies]
async-trait = "0.1"
base64 = "0.13"
darling = "0.13"
headers = "0.3"
http = "0.2"
proc-macro2 = "1"
quote = "1"
serde_json = "1"
syn = { version = "1", features = ["full"] }
tokio = { version = "1", features = ["net", "io-util"] }
