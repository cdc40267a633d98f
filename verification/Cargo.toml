[package]
name = "mh_monitoring"
version = "0.1.0"
edition = "2021"
publish = false

[dependencies]
serde = { version = "1", features = ["derive"] }
serde_json = "1"
global-hotkey = "*"
eframe = { version = "*", default-features = false, features = ["default_fonts", "glow", "x11"] }
windows-sys = { version = "*", features = ["Win32_Foundation", "Win32_Storage_FileSystem", "Win32_System_Console", "Win32_System_Diagnostics_Debug", "Win32_System_Diagnostics_Etw", "Win32_System_Diagnostics_ToolHelp", "Win32_System_Performance", "Win32_System_Threading", "Win32_System_Time", "Win32_UI_WindowsAndMessaging"] }
