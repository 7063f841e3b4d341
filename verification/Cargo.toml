[package]
name = "wsw"
version = "0.1.0"
edition = "2021"
publish = false

[dependencies]
chrono = "*"
clap = { version = "*", features = ["derive"] }
encoding_rs = "*"
prettytable-rs = "*"
tracing = "*"
tracing-appender = "*"
tracing-subscriber = { version = "*", features = ["env-filter"] }
which = "*"
windows = { version = "*", features = ["Win32_Foundation", "Win32_System_Services", "Win32_Security"] }
windows-service = "*"
windows-sys = { version = "*", features = ["Win32_Foundation", "Win32_System_JobObjects", "Win32_System_Services", "Win32_Security"] }
