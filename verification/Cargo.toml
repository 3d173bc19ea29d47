[package]
name = "auth_service"
version = "0.1.0"
edition = "2021"
publish = false

[dependencies]
pbkdf2 = { version = "0.12", features = ["simple"] }
rand_core = { version = "0.6", features = ["getrandom"] }
uuid = { version = "1", features = ["v4"] }
clap = { version = "4", features = ["derive"] }
