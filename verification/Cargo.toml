[package]
name = "live_region"
version = "0.1.0"
edition = "2021"
publish = false

[dependencies]
wxdragon = "=0.9.24"
objc = "=0.2.7"
windows = { version = "*", features = ["Win32_Foundation", "Win32_System_Com", "Win32_System_Ole", "Win32_System_Variant", "Win32_UI_Accessibility", "Win32_UI_Shell", "Win32_UI_WindowsAndMessaging"] }
