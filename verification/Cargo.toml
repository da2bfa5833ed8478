[package]
name = "fed_receive"
version = "0.1.0"
edition = "2021"
publish = false

[dependencies]
url = "=2.5.8"
jsonwebtoken = { version = "=11.1.0", default-features = false, features = ["rust_crypto"] }
bcrypt = "=0.19.3"
serde_json = "=1.0.151"
serde = { version = "=1.0.229", features = ["derive"] }
chrono = "=0.4.45"
