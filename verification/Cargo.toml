[package]
name = "rayhunter"
version = "0.1.0"
edition = "2021"
publish = false

[dependencies]
adb_client = "=2.1.19"
anyhow = "=1.0.104"
async-trait = "=0.1.92"
chrono = "=0.4.45"
clap = { version = "=4.6.7", features = ["derive"] }
embedded-graphics = "=0.8.2"
env_logger = "=0.11.11"
futures = "=0.3.34"
image = { version = "=0.25.10", default-features = false, features = ["png"] }
libc = "=0.2.191"
libtest-mimic = "=0.8.2"
log = "=0.4.34"
md5 = "=0.8.1"
prost = "=0.14.4"
reqwest = { version = "=0.13.5", default-features = false, features = ["json"] }
serde = { version = "=1.0.229", features = ["derive"] }
serde_json = "=1.0.154"
tokio = { version = "=1.54.1", features = ["full"] }
tokio-serial = { version = "=5.5.0", default-features = false }
tokio-util = { version = "=0.7.20", features = ["rt"] }
url = "=2.5.8"
