[package]
name = "evm_bench"
version = "0.1.0"
edition = "2021"
publish = false

[dependencies]
hex = "=0.4.3"
primitive-types = "=0.14.0"
revm = { version = "=43.0.3", default-features = false, features = ["std"] }
revm-statetest-types = "=43.0.2"
serde_json = "=1.0.154"
microbench = "=0.5.0"
eyre = "=0.6.14"
clap = { version = "=4.6.7", features = ["derive"] }
evm = "=1.1.1"
evm-precompile = "1.0.1"
