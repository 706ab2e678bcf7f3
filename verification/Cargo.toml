[package]
name = "wisteria"
version = "0.1.0"
edition = "2021"
publish = false

[dependencies]
serde_json = "1"
chrono = "0.4"
zbus = "5"
zvariant = "5"
futures-signals = "0.3"
futures-util = "0.3"
futures-lite = "2"
async-io = "2"
sysinfo = "*"
tracing = "0.1"
tracing-subscriber = { version = "0.3", features = ["env-filter"] }
clap = { version = "4", features = ["derive"] }
