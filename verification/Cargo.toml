[package]
name = "vibrant"
version = "0.1.0"
edition = "2021"
publish = false

[dependencies]
base64 = "0.22"
regex = "1"
serde = { version = "1", features = ["derive"] }
serde_json = "1"
toml = "*"
actix-web = "4"
actix-files = "*"
actix-cors = "*"
actix-rt = "2"
awc = "3"
askama = "*"
bollard = "*"
clap = { version = "4", features = ["derive"] }
dorsal = "*"
dotenv = "*"
env_logger = "*"
futures-util = "*"
