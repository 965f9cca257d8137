[package]
name = "superdeduper"
version = "0.2.7"
edition = "2021"
publish = false

[dependencies]
hashbrown = "=0.15.5"
humansize = "=2.1.3"
parking_lot = "=0.12.5"
serde = { version = "=1.0.229", features = ["derive"] }
serde_json = "=1.0.154"
tracing = "=0.1.44"
egui = "=0.32.3"
egui_extras = "=0.32.3"
windows = { version = "=0.58.0", features = ["Win32_Foundation", "Win32_Security", "Win32_Storage_FileSystem", "Win32_System_IO"] }

[dev-dependencies]
