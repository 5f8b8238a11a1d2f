[package]
name = "crux"
version = "0.1.0"
edition = "2021"
publish = false

[dependencies]
anyhow = "1"
base64 = "0.22"
clap = { version = "4", features = ["derive"] }
directories = "*"
env_logger = "*"
governor = "*"
image = { version = "0.25", default-features = false, features = ["png", "tiff"] }
libc = "0.2"
log = "0.4"
notify = "*"
notify-debouncer-mini = "*"
regex = "1"
rmcp = { version = "*", features = ["server", "macros", "transport-io"] }
serde = { version = "1", features = ["derive"] }
serde_json = "1"
thiserror = "*"
tokio = { version = "1", features = ["rt-multi-thread", "net", "io-util", "io-std", "sync", "macros", "time"] }
tokio-util = "0.7"
toml = "*"
url = "2"
