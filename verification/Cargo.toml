[package]
name = "ipscanner"
version = "0.1.0"
edition = "2021"
publish = false

[dependencies]
ipnet = "2"
tokio-util = "0.7"
tokio = { version = "1", features = ["rt-multi-thread", "macros", "net", "time", "sync"] }
futures = "0.3"
parking_lot = "0.12"
uuid = { version = "1", features = ["v4", "serde"] }
serde = { version = "1", features = ["derive"] }
rust_xlsxwriter = "*"
dns-lookup = "2"
if-addrs = "*"
reqwest = { version = "0.12", default-features = false, features = ["rustls-tls"] }
winping = "*"
windows-sys = { version = "*", features = ["Win32_NetworkManagement_IpHelper"] }
