[package]
name = "opbot"
version = "0.1.0"
edition = "2021"
publish = false

[dependencies]
dotenv = "*"
env_logger = "*"
log = "*"
once_cell = "*"
poise = "*"
tokio = { version = "*", features = ["macros", "rt-multi-thread"] }
