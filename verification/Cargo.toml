[package]
name = "zcode_update"
version = "0.1.0"
edition = "2021"
publish = false

[dependencies]
clap = { version = "4", features = ["derive"] }
jiff = "0.2"
plist = "1"
serde = { version = "1", features = ["derive"] }
serde_yaml_ng = "0.10"
ureq = "3"
windows-sys = { version = "0.59", features = ["Win32_Foundation", "Win32_Storage_FileSystem"] }
