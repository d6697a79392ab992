[package]
name = "zet"
version = "0.1.0"
edition = "2021"
publish = false

[dependencies]
serde = { version = "1", features = ["derive"] }
toml_edit = { version = "0.22", features = ["serde"] }
thiserror = "*"
fontique = "*"
swash = "*"
unicode-script = "*"
windows-sys = { version = "*", features = ["Win32_Foundation", "Win32_Security", "Win32_Storage_FileSystem", "Win32_System_Console", "Win32_System_JobObjects", "Win32_System_Pipes", "Win32_System_Threading"] }
