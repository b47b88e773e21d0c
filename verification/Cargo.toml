[package]
name = "process_inventory"
version = "0.1.0"
edition = "2021"
publish = false

[dependencies]
netstat2 = "=0.11.2"
sysinfo = "=0.39.6"
serde = { version = "=1.0.229", features = ["derive"] }
serde_json = "=1.0.154"
serde_with = "=3.24.0"
thiserror = "=2.0.21"
tokio = { version = "=1.54.1", features = ["full"] }
axum = "=0.8.9"
http = "=1.5.0"
tower-http = { version = "=0.7.1", features = ["fs", "cors"] }
specta = { version = "=2.0.0-rc.22", features = ["derive"] }
specta-typescript = "=0.0.9"
windows = { version = "0.58", features = ["Win32_Foundation", "Win32_System_ProcessStatus", "Win32_System_Threading"] }
