[package]
name = "inputsim"
version = "0.1.0"
edition = "2021"
publish = false

[dependencies]
chrono = "0.4"
enigo = "0.2"
rdev = "0.5"
serde = { version = "1", features = ["derive"] }
serde_json = "1"
