[package]
name = "prevant"
version = "0.1.0"
edition = "2021"
publish = false

[dependencies]
bytes = "=1.12.1"
chrono = { version = "=0.4.45", default-features = false, features = ["clock", "std"] }
clap = { version = "=4.6.7", features = ["cargo"] }
crossbeam-utils = "=0.8.23"
evmap = "=10.0.2"
failure = "=0.1.8"
futures = "=0.3.34"
http = "=1.5.0"
http-body-util = "=0.1.5"
multimap = { version = "=0.10.1", default-features = false }
serde_json = "=1.0.154"
shiplift = { version = "=0.7.0", default-features = false, features = ["unix-socket", "chrono"] }
tokio = { version = "=1.54.1", features = ["rt", "rt-multi-thread", "time", "macros", "net", "io-util"] }
yansi = "=1.0.1"
