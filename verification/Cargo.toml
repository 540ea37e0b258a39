[package]
name = "ssl_injector"
version = "0.1.0"
edition = "2021"
publish = false

[dependencies]
anyhow = "*"
aya = { version = "=0.13.1", features = ["async_tokio"] }
aya-log = "=0.2.1"
bytes = "*"
libc = "*"
log = "*"
log4rs = "*"
tokio = { version = "*", features = ["macros", "rt", "rt-multi-thread", "signal"] }
