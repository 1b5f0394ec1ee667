[package]
name = "pixai_auto_claimer"
version = "0.1.0"
edition = "2021"
publish = false

[dependencies]
native-dialog = "0.6"
once_cell = "1"
parking_lot = "0.12"
platform-dirs = "0.3"
portpicker = "0.1"
serde = { version = "1", features = ["derive"] }
serde_json = "1"
thirtyfour = "0.31"
thiserror = "1"
tokio = { version = "1", features = ["time"] }
which = "4"
