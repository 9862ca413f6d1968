[package]
name = "captastic"
version = "0.1.0"
edition = "2021"
publish = false

[dependencies]
anstream = "0.6"
clap = { version = "4", features = ["derive"] }
log = { version = "0.4", features = ["std"] }
serde = { version = "1", features = ["derive"] }
serde_json = "1"
thiserror = "1"
toml = "0.8"
toml_edit = "0.21"
windows = { version = "0.58", features = ["Win32_Foundation", "Win32_Storage_FileSystem", "Win32_System_Threading"] }
