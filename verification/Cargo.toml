[package]
name = "skipuac"
version = "0.1.0"
edition = "2021"
publish = false

[dependencies]
base64 = "=0.22.1"
blake3 = { version = "=1.8.7", features = ["pure"] }
png = "=0.17.16"
uuid = { version = "=1.29.0", features = ["v4"] }
serde = { version = "=1.0.229", features = ["derive"] }
serde_json = "=1.0.154"
windows = { version = "0.62", features = ["Win32_Foundation", "Win32_System_Com", "Win32_System_TaskScheduler", "Win32_System_Variant", "Win32_System_Ole", "Win32_UI_Shell", "Win32_System_Threading", "Win32_System_Registry", "Win32_Graphics_Gdi", "Win32_Storage_FileSystem", "Win32_UI_WindowsAndMessaging"] }
tauri = { version = "2", default-features = false, features = ["wry"] }
