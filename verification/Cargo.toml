[package]
name = "cloud_image_download"
version = "0.1.0"
edition = "2021"
publish = false

[dependencies]
base16ct = { version = "*", features = ["alloc"] }
chrono = "*"
clap = { version = "*", features = ["derive"] }
clap-verbosity-flag = "*"
colored = "*"
config = "*"
const_format = "*"
directories = "*"
env_logger = "*"
futures = "*"
httpdirectory = "*"
log = "*"
regex = "*"
reqwest = "*"
rusqlite = { version = "*", features = ["bundled"] }
serde = { version = "*", features = ["derive"] }
sha2 = "*"
shellexpand = "*"
tokio = { version = "*", features = ["rt-multi-thread", "macros"] }
trauma = "*"
