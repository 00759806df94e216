[package]
name = "winri"
version = "0.1.0"
edition = "2021"
publish = false

[dependencies]
png = "=0.17.16"
keyboard-types = "=0.8.3"
anyhow = "1"
dirs = "6"
log = "0.4"
serde = { version = "1", features = ["derive"] }
serde_json = "1"
tiny_http = "0.12"
toml = "0.9"
log4rs = { version = "1", features = ["rolling_file_appender", "compound_policy", "fixed_window_roller", "onstartup_trigger", "console_appender"] }
windows = { version = "=0.59.0", features = ["Win32_Foundation", "Win32_Graphics_Dwm", "Win32_Graphics_Gdi", "Win32_Security", "Win32_Storage_Xps", "Win32_System_Com", "Win32_System_ProcessStatus", "Win32_System_Threading", "Win32_UI_Accessibility", "Win32_UI_HiDpi", "Win32_UI_Input_KeyboardAndMouse", "Win32_UI_Shell", "Win32_UI_WindowsAndMessaging"] }
rdev = { version = "=0.5.3", features = ["unstable_grab"] }
iced = { version = "=0.14.0", default-features = false, features = ["canvas", "image-without-codecs", "tokio", "tiny-skia", "x11"] }
