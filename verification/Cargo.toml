[package]
name = "fpm_gateway"
version = "0.1.0"
edition = "2021"
publish = false

[dependencies]
axum = "=0.8.9"
clap = { version = "=4.6.7", features = ["derive"] }
ctrlc = "=3.5.2"
fastcgi-client = "=0.9.0"
futures = "=0.3.34"
http = "=1.5.0"
nix = { version = "=0.31.3", features = ["signal", "process"] }
tokio = { version = "=1.54.1", features = ["rt-multi-thread", "macros", "net", "fs"] }
tokio-util = { version = "=0.7.20", features = ["io"] }
