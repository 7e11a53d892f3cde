[package]
name = "worker"
version = "0.1.0"
edition = "2021"
publish = false

[dependencies]
chrono = { version = "=0.4.45", default-features = false, features = ["clock"] }
dotenvy = "=0.15.7"
log = "=0.4.34"
pretty_env_logger = "=0.5.0"
prost = "0.14"
tokio = { version = "=1.54.1", features = ["macros", "rt-multi-thread", "sync"] }
tonic = "=0.14.6"
tonic-prost = "0.14"
