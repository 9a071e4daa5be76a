[package]
name = "theshy"
version = "0.1.0"
edition = "2021"
publish = false

[dependencies]
backtrace = "*"
configparser = "*"
enum-iterator = "*"
mio = { version = "*", features = ["os-poll", "net"] }
sni_shuffle = "*"
