[package]
name = "sftp_server"
version = "0.1.0"
edition = "2021"
publish = false

[dependencies]
uuid = { version = "=1.29.0", features = ["v4"] }
lexiclean = "=0.0.2"
circular = "=0.3.0"
tokio = { version = "=1.54.1", features = ["fs", "io-util", "io-std", "rt-multi-thread", "macros", "time"] }
chrono = "=0.4.45"
nix = { version = "=0.31.3", features = ["fs", "user"] }
filetime = "=0.2.29"
async-trait = "=0.1.92"
futures = "=0.3.34"
thiserror = "=2.0.21"
envconfig = "=0.11.1"
env_logger = "=0.11.11"
lazy_static = "=1.5.1"
log = "=0.4.34"
