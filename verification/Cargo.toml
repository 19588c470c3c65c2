[package]
name = "balancebeam"
version = "0.1.0"
edition = "2021"
publish = false

[dependencies]
rand = "=0.8.8"
tokio = { version = "=1.53.2", features = ["rt-multi-thread", "net", "time", "io-util", "macros", "sync"] }
http = "=1.5.0"
clap = { version = "=4.6.7", features = ["derive"] }
log = "=0.4.34"
pretty_env_logger = "=0.5.0"
crossbeam-channel = "=0.5.17"
nix = { version = "*", features = ["ptrace", "signal", "process"] }
rustyline = "*"
