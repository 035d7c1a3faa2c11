[package]
name = "forward_proxy"
version = "0.1.0"
edition = "2021"
publish = false

[dependencies]
clap = { version = "4", features = ["derive"] }
hyper = { version = "0.14", features = ["full"] }
tokio = { version = "1", features = ["net", "rt-multi-thread", "macros", "io-util"] }
tower = { version = "0.4", features = ["make"] }
