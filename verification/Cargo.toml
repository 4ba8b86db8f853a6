[package]
name = "hypr_handled"
version = "0.1.0"
edition = "2021"
publish = false

[dependencies]
log = "0.4"
log4rs = "1"
rodio = "0.21"
serde = { version = "1", features = ["derive"] }
serde_json = "1"
