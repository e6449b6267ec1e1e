[package]
name = "zerotrust_track"
version = "0.1.0"
edition = "2021"
publish = false

[dependencies]
chrono = "=0.4.45"
clap = "=4.6.7"
libc = "=0.2.190"
log = "=0.4.34"
pnet = "=0.35.0"
procfs = "=0.18.0"
rand = "=0.10.3"
reqwest = { version = "=0.13.5", default-features = false, features = ["blocking"] }
serde = { version = "=1.0.229", features = ["derive"] }
serde_json = "=1.0.151"
serde_yaml = "=0.9.34"
simple_logger = "=5.2.0"
sys-info = "=0.9.1"
syslog = "=7.0.0"
timer = "=0.2.0"
users = "=0.11.0"
uuid = { version = "=1.27.0", features = ["serde", "v4"] }

[dev-dependencies]
tempfile = "*"
