[package]
name = "ancs_bridge"
version = "0.1.0"
edition = "2021"
publish = false

[dependencies]
anyhow = "*"
bluer = { version = "*", features = ["bluetoothd"] }
clap = { version = "*", features = ["derive"] }
env_logger = "*"
futures = "*"
log = "*"
notify-rust = "*"
tokio = { version = "*", features = ["macros", "rt-multi-thread", "time"] }

[dev-dependencies]
ancs = "*"
