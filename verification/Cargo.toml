[package]
name = "interview_copilot"
version = "0.1.0"
edition = "2021"
publish = false

[dependencies]
anyhow = "1"
async-trait = "0.1"
futures-util = "0.3"
hound = "3.5"
ort = "2.0.0-rc.10"
reqwest = { version = "0.12", default-features = false, features = ["json", "rustls-tls"] }
ringbuf = "0.4"
rubato = "0.16"
serde = { version = "1", features = ["derive"] }
serde_json = "1"
tokio = { version = "1", features = ["full"] }
tokio-tungstenite = { version = "0.24", features = ["rustls-tls-webpki-roots"] }
wasapi = "*"
windows-sys = { version = "0.59", features = ["Win32_UI_Input_KeyboardAndMouse"] }
