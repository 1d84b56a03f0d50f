[package]
name = "feignhttp"
version = "0.1.0"
edition = "2021"
publish = false

[dependencies]
async-trait = "0.1"
http = "0.2"
log = "0.4"
reqwest = { version = "0.11", default-features = false, features = ["json"] }
serde = "1"
serde_json = "1"
serde_urlencoded = "0.7"
url = "2"
