[package]
name = "minote"
version = "0.1.0"
edition = "2021"
publish = false

[dependencies]
com = "0.2"
directories = "5"
fuzzy-matcher = "0.3"
native-windows-derive = "1.0"
native-windows-gui = "1.0"
once_cell = "1"
reqwest = { version = "0.12", features = ["json"] }
serde = { version = "1", features = ["derive"] }
serde_json = "1"
tokio = { version = "1", features = ["full"] }
webview2 = "0.1"
webview2-sys = "0.1"
widestring = "1"
winapi = { version = "0.3", features = ["combaseapi", "libloaderapi", "minwindef", "ntdef", "objbase", "shellapi", "winbase", "windef", "winerror", "winuser"] }
