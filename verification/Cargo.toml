[package]
name = "miner"
version = "0.1.0"
edition = "2021"
publish = false

[dependencies]
rust-argon2 = "=3.0.0"
base64 = "=0.23.1"
spmc = "=0.3.0"
clap = { version = "=4.6.7", features = ["derive"] }
log = "*"
log4rs = "=1.4.0"
rlua = "=0.20.1"
serde = { version = "*", features = ["derive"] }
serde-aux = "=4.7.0"
serde_json = "*"
simple-error = "=0.3.3"
zmq = "=0.10.0"
