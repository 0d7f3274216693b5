[package]
name = "helloworld"
version = "0.1.0"
edition = "2021"
publish = false

[dependencies]
prost = "=0.5.0"
bytes = "=0.4.12"
futures = "=0.1.31"
http = "=0.1.21"
hyper = "=0.12.36"
tokio = "=0.1.22"
tokio-threadpool = "=0.1.18"
tower-grpc = { version = "=0.1.1", features = ["tower-hyper"] }
tower-hyper = "=0.1.1"
tower-request-modifier = "=0.1.0"
tower-util = "=0.1.0"
env_logger = "=0.6.2"
log = "=0.4.35"
