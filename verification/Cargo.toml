[package]
name = "supertools"
version = "0.1.0"
edition = "2021"
publish = false

[dependencies]
futures-util = "*"
image = { version = "*", default-features = false, features = ["png", "jpeg"] }
num_cpus = "*"
open = "*"
parking_lot = "*"
resvg = "*"
serde = { version = "*", features = ["derive"] }
serde_json = "*"
tokio = { version = "*", features = ["sync", "rt", "macros"] }
