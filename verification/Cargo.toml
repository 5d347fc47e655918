[package]
name = "mebal"
version = "0.1.0"
edition = "2021"
publish = false

[dependencies]
bytes = "=1.12.1"
chrono = "=0.4.45"
dirs = "=5.0.1"
anyhow = "=1.0.104"
thiserror = "=2.0.21"
serde = { version = "=1.0.229", features = ["derive"] }
toml = "=0.8.23"
clap = { version = "=4.6.7", features = ["derive"] }
tokio = { version = "=1.54.1", features = ["full"] }
tokio-util = { version = "=0.7.20", features = ["rt"] }
tracing = "=0.1.44"
tracing-subscriber = { version = "=0.3.23", features = ["env-filter"] }
parking_lot = "=0.12.5"
arc-swap = "=1.9.3"
crossbeam = "=0.8.5"
cpal = "=0.15.3"
livesplit-hotkey = "=0.8.1"
ffmpeg-next = "=7.1.0"
ffmpeg-sys-next = "=7.1.3"
windows = { version = "0.58", features = ["Win32_Foundation", "Win32_Devices_Display", "Win32_Graphics_Direct3D", "Win32_Graphics_Direct3D_Fxc", "Win32_Graphics_Direct3D11", "Win32_Graphics_Dxgi", "Win32_Graphics_Dxgi_Common", "Win32_UI_HiDpi"] }
