[package]
name = "nsis_tauri_utils"
version = "0.1.0"
edition = "2021"
publish = false

[dependencies]
semver = "1"
ureq = "2"
progress-streams = "1"
windows-sys = { version = "0.59", features = ["Win32_Foundation", "Win32_Security", "Win32_System_Diagnostics_ToolHelp", "Win32_System_Threading", "Win32_UI_Shell", "Win32_UI_WindowsAndMessaging", "Win32_UI_Controls"] }
