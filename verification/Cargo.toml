[package]
name = "wisprtype"
version = "0.1.0"
edition = "2021"
publish = false

[dependencies]
serde = { version = "1", features = ["derive"] }
serde_json = "1"
global-hotkey = "0.6"
reqwest = { version = "0.12", default-features = false, features = ["blocking", "json", "multipart", "rustls-tls"] }
rusqlite = { version = "0.32", features = ["bundled"] }
encoding_rs = "0.8"
log = "0.4"
clipboard-win = "5"
windows = { version = "0.57", features = ["Win32_Foundation", "Win32_Security_Credentials", "Win32_UI_Input_KeyboardAndMouse", "Win32_UI_WindowsAndMessaging"] }
