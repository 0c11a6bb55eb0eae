[package]
name = "mdns-reflector"
version = "0.1.0"
edition = "2021"
publish = false

[dependencies]
clap = "4"
color-eyre = "0.6"
libc = "0.2"
socket2 = { version = "0.5", features = ["all"] }
tokio = { version = "1", features = ["macros", "net", "rt-multi-thread", "signal", "time"] }
tokio-util = { version = "0.7", features = ["rt"] }
tracing = "0.1"
tracing-error = "0.2"
tracing-subscriber = { version = "0.3", features = ["env-filter"] }
