[package]
name = "pwntools"
version = "0.1.0"
edition = "2021"
publish = false

[dependencies]
elf-utilities = "*"
unicorn-engine = "*"
async-trait = "0.1"
futures = "0.3"
clap = { version = "4", features = ["derive"] }
tokio = { version = "1", features = ["io-std", "io-util", "macros", "net", "process", "rt-multi-thread"] }
