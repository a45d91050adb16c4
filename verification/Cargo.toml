[package]
name = "dnsclient"
version = "0.1.0"
edition = "2021"
publish = false

[dependencies]
dnssector = "=0.2.15"
rand = "=0.8.8"
tokio = { version = "=1.54.1", default-features = false, features = ["net", "time", "io-util", "rt"] }
