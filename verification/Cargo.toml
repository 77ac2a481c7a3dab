[package]
name = "notifieru"
version = "0.1.0"
edition = "2021"
publish = false

[dependencies]
minreq = { version = "2", features = ["json-using-serde"] }
serde_json = "1"
