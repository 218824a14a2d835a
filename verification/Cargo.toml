[package]
name = "reflect_core"
version = "0.1.0"
edition = "2021"
publish = false

[dependencies]
chrono = "=0.4.45"
serde = { version = "1", features = ["derive"] }
windows = { version = "0.62", features = ["Data_Xml_Dom", "UI_Notifications"] }
winreg = "0.56"
mac-notification-sys = "0.6"
