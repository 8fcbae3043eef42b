[package]
name = "bups"
version = "0.3.5"
edition = "2021"
publish = false

[dependencies]
rasn = "*"
rasn-smi = "*"
rasn-snmp = "*"
tokio = { version = "1", features = ["full"] }
tokio-stream = "*"
nusb = "0.2"
mdns-sd = "*"
local-ip-address = "*"
clap = { version = "4", features = ["derive"] }
tracing = "0.1"
tracing-subscriber = { version = "0.3", features = ["env-filter", "fmt"] }
syslog-tracing = "*"
libc = "0.2"
thiserror = "2"
