[package]
name = "dead_wars"
version = "0.1.0"
edition = "2021"
publish = false

[dependencies]
async-trait = "=0.1.92"
mergui = "=0.1.0-alpha0.8"
quicksilver = { version = "=0.4.0", default-features = false, features = ["font", "ttf"] }
serde = { version = "=1.0.229", features = ["derive"] }
serde_json = "=1.0.154"
