[package]
name = "shadowsocks"
version = "0.1.0"
edition = "2021"
publish = false

[dependencies]
md5 = "=0.8.1"
rc4 = "=0.2.0"
chacha20 = { version = "=0.10.2", features = ["legacy"] }
salsa20 = "=0.11.0"
aes = "=0.9.3"
rand = "=0.10.3"
clap = "=4.6.7"
log = "=0.4.34"
env_logger = "=0.11.11"
