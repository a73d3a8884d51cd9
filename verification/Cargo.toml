[package]
name = "hopscout"
version = "0.1.0"
edition = "2021"
publish = false

[dependencies]
ratatui = "*"
dns-lookup = "*"
serde = { version = "1", features = ["derive"] }
serde_json = "1"
socket2 = "*"
libloading = "*"
windows = { version = "*", features = ["Win32_Foundation", "Win32_Security", "Win32_System_Threading", "Win32_NetworkManagement_IpHelper", "Win32_Networking_WinSock", "Win32_System_Pipes", "Win32_Storage_FileSystem", "Win32_UI_Shell", "Win32_UI_WindowsAndMessaging"] }

[dev-dependencies]
toml = "*"
